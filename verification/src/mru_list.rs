//! A small most-recently-used list of paths.
//!
//! New items go to the front; inserting an item already present moves it to
//! the front; the list never grows past its maximum size and never holds the
//! same path twice.  A changed flag tracks whether the contents were touched
//! since the last save, so callers persist the list only when needed.  The
//! list holds paths in their expanded form; turning `~` forms into expanded
//! ones and back is the caller's step, done with the `paths` helpers.
//!
//! The list is persisted one encoded token per line, in the `path_string`
//! codec's format; `to_lines` and `read_from_lines` are the pure halves of
//! that exchange, with the file I/O itself left to the caller.

use vstd::prelude::*;
use vstd::string::StrSliceExecFns;
use crate::path_string::PathFamily;
use crate::path_string::PathUnits;
use crate::path_string::PathView;
use crate::path_string::decode_spec;
use crate::path_string::encode_spec;
use crate::path_string::path_string_to_path_buf;
use crate::path_string::path_to_path_string;
use crate::path_string::sentinel_prefix;
use crate::path_string::starts_with_sentinel;
use crate::path_string::str_starts_with;
use crate::path_string::string_to_wide;
use crate::path_string::units_from_text;
use crate::paths::compress_spec;
use crate::paths::compress_tilde_impl;
use crate::paths::expand_spec;
use crate::paths::expand_tilde_impl;

verus! {

/// No path occurs twice in the list.
pub open spec fn mru_no_dups(items: Seq<PathView>) -> bool {
    forall|i: int, j: int| 0 <= i < j < items.len() ==> items[i] != items[j]
}

/// What one insertion does: the path's old occurrence, if any, is removed,
/// the path goes to the front, and the list is cut back to `max` items.
pub open spec fn mru_insert_spec(items: Seq<PathView>, p: PathView, max: int) -> Seq<PathView> {
    let shifted = seq![p] + items.remove_value(p);
    if shifted.len() <= max {
        shifted
    } else {
        shifted.subrange(0, max)
    }
}

/// A most-recently-used list of paths, newest first.
#[derive(Debug)]
pub struct MruList {
    filename: String,
    items: Vec<PathUnits>,
    max_items: usize,
    is_changed: bool,
}

impl MruList {
    /// The paths in the list, newest first.
    pub closed spec fn spec_items(&self) -> Seq<PathView> {
        self.items.deep_view()
    }

    /// The name of the file the list is persisted in.
    pub closed spec fn spec_filename(&self) -> Seq<char> {
        self.filename@
    }

    /// The most items the list may hold.
    pub closed spec fn spec_max(&self) -> int {
        self.max_items as int
    }

    /// Whether the contents were touched since the last save.
    pub closed spec fn spec_is_changed(&self) -> bool {
        self.is_changed
    }

    /// The list's invariant: within bounds and free of duplicates.
    pub open spec fn inv(&self) -> bool {
        mru_no_dups(self.spec_items()) && self.spec_items().len() <= self.spec_max()
    }

    /// An empty list that will be persisted in the given file and hold at
    /// most `max_items` paths.
    pub fn new(filename: &str, max_items: usize) -> (r: MruList)
        ensures
            r.inv(),
            r.spec_items() == Seq::<PathView>::empty(),
            r.spec_filename() == filename@,
            r.spec_max() == max_items as int,
            !r.spec_is_changed(),
    {
        let r = MruList {
            filename: filename.to_owned(),
            items: Vec::new(),
            max_items,
            is_changed: false,
        };
        proof {
            assert(r.spec_items() =~= Seq::<PathView>::empty());
        }
        r
    }

    /// Whether the contents were touched since the last save.
    pub fn is_changed(&self) -> (r: bool)
        ensures
            r == self.spec_is_changed(),
    {
        self.is_changed
    }

    /// Marks the contents as saved.
    pub fn clear_is_changed(&mut self)
        ensures
            !final (self).spec_is_changed(),
            final (self).spec_items() == old(self).spec_items(),
            final (self).spec_filename() == old(self).spec_filename(),
            final (self).spec_max() == old(self).spec_max(),
    {
        self.is_changed = false;
    }

    /// How many paths the list holds.
    pub fn len(&self) -> (r: usize)
        ensures
            r == self.spec_items().len(),
    {
        self.items.len()
    }

    /// Whether the list holds no paths.
    pub fn is_empty(&self) -> (r: bool)
        ensures
            r == (self.spec_items().len() == 0),
    {
        self.items.is_empty()
    }

    /// The name of the file the list is persisted in.
    pub fn filename(&self) -> (r: &String)
        ensures
            r@ == self.spec_filename(),
    {
        &self.filename
    }

    /// The path at the given position, newest first.
    pub fn get(&self, index: usize) -> (r: &PathUnits)
        requires
            index < self.spec_items().len(),
        ensures
            r@ == self.spec_items()[index as int],
    {
        &self.items[index]
    }

    /// The paths in the list, newest first, as a fresh vector.
    pub fn iter(&self) -> (r: Vec<PathUnits>)
        ensures
            r.deep_view() == self.spec_items(),
    {
        let mut r: Vec<PathUnits> = Vec::new();
        let n = self.items.len();
        let mut i: usize = 0;
        while i < n
            invariant
                0 <= i <= n,
                n == self.items@.len(),
                r@.len() == i,
                forall|k: int| 0 <= k < i ==> #[trigger] r@[k].deep_view() == self.spec_items()[k],
            decreases n - i,
        {
            r.push(self.items[i].duplicate());
            i = i + 1;
        }
        proof {
            assert(r.deep_view() =~= self.spec_items());
        }
        r
    }

    /// Removes a path from the list if it is there; a no-op otherwise.
    /// The changed flag is raised only when something was removed.
    pub fn remove(&mut self, path: &PathUnits)
        requires
            old(self).inv(),
        ensures
            final (self).inv(),
            final (self).spec_items() == old(self).spec_items().remove_value(path@),
            final (self).spec_is_changed() == (old(self).spec_is_changed() || old(
                self,
            ).spec_items().contains(path@)),
            final (self).spec_filename() == old(self).spec_filename(),
            final (self).spec_max() == old(self).spec_max(),
    {
        let n = self.items.len();
        let mut i: usize = 0;
        while i < n
            invariant
                0 <= i <= n,
                n == self.items@.len(),
                *self == *old(self),
                old(self).inv(),
                forall|j: int| 0 <= j < i ==> self.spec_items()[j] != path@,
            decreases n - i,
        {
            if &self.items[i] == path {
                proof {
                    let items = self.spec_items();
                    items.index_of_first_ensures(path@);
                    let found = items.index_of_first(path@);
                    assert(items[i as int] == path@);
                    assert(found is Some);
                    let k = found.unwrap();
                    assert(items[k] == path@);
                    if k < i as int {
                        assert(items[k] != path@);
                    }
                    if k > i as int {
                        assert(items[i as int] != path@);
                    }
                    assert(k == i as int);
                }
                self.items.remove(i);
                self.is_changed = true;
                proof {
                    let pre = old(self).spec_items();
                    let pre_units = old(self).items@;
                    pre.remove_ensures(i as int);
                    pre_units.remove_ensures(i as int);
                    assert(self.items@ == pre_units.remove(i as int));
                    assert forall|k: int|
                        0 <= k < self.spec_items().len() implies self.spec_items()[k] == pre.remove(
                        i as int,
                    )[k] by {
                        if k < i as int {
                            assert(self.items@[k] == pre_units[k]);
                            assert(pre.remove(i as int)[k] == pre[k]);
                        } else {
                            assert(self.items@[k] == pre_units[k + 1]);
                            assert(pre.remove(i as int)[k] == pre[k + 1]);
                        }
                    }
                    assert(self.spec_items() =~= pre.remove(i as int));
                    assert(pre.remove_value(path@) == pre.remove(i as int));
                    assert(mru_no_dups(pre));
                    assert forall|a: int, b: int|
                        0 <= a < b < self.spec_items().len() implies self.spec_items()[a]
                        != self.spec_items()[b] by {
                        let pa = if a < i as int {
                            a
                        } else {
                            a + 1
                        };
                        let pb = if b < i as int {
                            b
                        } else {
                            b + 1
                        };
                        assert(0 <= pa < pb < pre.len());
                        assert(pre[pa] != pre[pb]);
                        assert(pre.remove(i as int)[a] == pre[pa]);
                        assert(pre.remove(i as int)[b] == pre[pb]);
                        assert(self.spec_items()[a] == pre[pa]);
                        assert(self.spec_items()[b] == pre[pb]);
                    }
                }
                return ;
            }
            i = i + 1;
        }
        proof {
            let items = self.spec_items();
            items.index_of_first_ensures(path@);
            if items.contains(path@) {
                let k = items.index_of_first(path@).unwrap();
                assert(items[k] != path@);
            }
            assert(items.remove_value(path@) == items);
        }
    }

    /// Puts a path at the front of the list.  A path already present is
    /// moved to the front, and the list is cut back to its maximum size.
    pub fn insert(&mut self, path: PathUnits)
        requires
            old(self).inv(),
        ensures
            final (self).inv(),
            final (self).spec_items() == mru_insert_spec(
                old(self).spec_items(),
                path@,
                old(self).spec_max(),
            ),
            final (self).spec_is_changed(),
            final (self).spec_filename() == old(self).spec_filename(),
            final (self).spec_max() == old(self).spec_max(),
    {
        let ghost pre = old(self).spec_items();
        let ghost p = path@;
        self.remove(&path);
        let ghost pruned = self.spec_items();
        self.items.insert(0, path);
        proof {
            assert(self.spec_items() =~= seq![p] + pruned);
        }
        self.items.truncate(self.max_items);
        self.is_changed = true;
        proof {
            let shifted = seq![p] + pruned;
            if shifted.len() <= self.spec_max() {
                assert(self.spec_items() =~= shifted);
            } else {
                assert(self.spec_items() =~= shifted.subrange(0, self.spec_max()));
            }
            pre.index_of_first_ensures(p);
            assert(!pruned.contains(p)) by {
                if pruned.contains(p) {
                    let w = choose|w: int| 0 <= w < pruned.len() && pruned[w] == p;
                    match pre.index_of_first(p) {
                        Some(k) => {
                            assert(pruned == pre.remove(k));
                            pre.remove_ensures(k);
                            if w < k {
                                assert(pre.remove(k)[w] == pre[w]);
                                assert(pre[w] == p && pre[k] == p);
                            } else {
                                assert(pre.remove(k)[w] == pre[w + 1]);
                                assert(pre[w + 1] == p && pre[k] == p);
                            }
                        },
                        None => {
                            assert(pre[w] == p);
                            assert(pre.contains(p));
                        },
                    }
                }
            }
            assert forall|a: int, b: int|
                0 <= a < b < self.spec_items().len() implies self.spec_items()[a]
                != self.spec_items()[b] by {
                assert(self.spec_items()[a] == shifted[a]);
                assert(self.spec_items()[b] == shifted[b]);
                if a == 0 {
                    assert(shifted[b] == pruned[b - 1]);
                    assert(pruned[b - 1] != p) by {
                        if pruned[b - 1] == p {
                            assert(pruned.contains(p));
                        }
                    }
                } else {
                    assert(shifted[a] == pruned[a - 1]);
                    assert(shifted[b] == pruned[b - 1]);
                }
            }
        }
    }
}

// ----------------------------------------------------------------------------
// The line format the list is persisted in.
// ----------------------------------------------------------------------------

/// A whitespace character, as `char::is_whitespace` has it: the Unicode
/// `White_Space` set.
pub open spec fn is_space_char(c: char) -> bool {
    let u = c as u32;
    ||| u == 0x20
    ||| (0x09 <= u && u <= 0x0d)
    ||| u == 0x85
    ||| u == 0xa0
    ||| u == 0x1680
    ||| (0x2000 <= u && u <= 0x200a)
    ||| u == 0x2028
    ||| u == 0x2029
    ||| u == 0x202f
    ||| u == 0x205f
    ||| u == 0x3000
}

/// A line holding nothing but whitespace, which the reader skips.
pub open spec fn is_blank(line: Seq<char>) -> bool {
    forall|i: int| 0 <= i < line.len() ==> is_space_char(#[trigger] line[i])
}

/// Whether a line holds nothing but whitespace.
pub fn is_blank_line(s: &str) -> (r: bool)
    ensures
        r == is_blank(s@),
{
    let n = s.unicode_len();
    let mut i: usize = 0;
    while i < n
        invariant
            0 <= i <= n,
            n == s@.len(),
            forall|j: int| 0 <= j < i ==> is_space_char(#[trigger] s@[j]),
        decreases n - i,
    {
        let u = s.get_char(i) as u32;
        let space = u == 0x20 || (0x09 <= u && u <= 0x0d) || u == 0x85 || u == 0xa0 || u == 0x1680
            || (0x2000 <= u && u <= 0x200a) || u == 0x2028 || u == 0x2029 || u == 0x202f || u
            == 0x205f || u == 0x3000;
        if !space {
            return false;
        }
        i = i + 1;
    }
    true
}

/// The stored line for one path: its encoded token, with a leading home
/// directory compressed to `~` when the token is verbatim text.  An escaped
/// token is stored as it is.
pub open spec fn line_of(p: PathView, home: Seq<char>) -> Seq<char> {
    let token = encode_spec(p);
    if !starts_with_sentinel(token) {
        compress_spec(token, home)
    } else {
        token
    }
}

/// The path a stored line yields, if any.  A blank line yields none; a
/// verbatim line is expanded against the home directory and read as text; an
/// escaped line is decoded, and yields none when its payload is malformed.
pub open spec fn line_path(line: Seq<char>, home: Seq<char>, family: PathFamily) -> Option<
    PathView,
> {
    if is_blank(line) {
        None
    } else if !starts_with_sentinel(line) {
        Some(units_from_text(expand_spec(line, home), family))
    } else {
        match decode_spec(line, family) {
            Ok(p) => Some(p),
            Err(_) => None,
        }
    }
}

/// The list contents after inserting each line's path in order, front-most
/// last.
pub open spec fn mru_insert_lines(
    items: Seq<PathView>,
    lines: Seq<Seq<char>>,
    home: Seq<char>,
    family: PathFamily,
    max: int,
) -> Seq<PathView>
    decreases lines.len(),
{
    if lines.len() == 0 {
        items
    } else {
        let next = match line_path(lines[0], home, family) {
            Some(p) => mru_insert_spec(items, p, max),
            None => items,
        };
        mru_insert_lines(next, lines.skip(1), home, family, max)
    }
}

/// What reading a stored file does to the list: at most `max` lines are
/// considered, each line's path is inserted, and the result is reversed so
/// that the file's first line ends up most recent.
pub open spec fn mru_read_spec(
    items: Seq<PathView>,
    lines: Seq<Seq<char>>,
    home: Seq<char>,
    family: PathFamily,
    max: int,
) -> Seq<PathView> {
    let taken = if lines.len() <= max {
        lines
    } else {
        lines.subrange(0, max)
    };
    mru_insert_lines(items, taken, home, family, max).reverse()
}

impl MruList {
    /// The lines that persist the list, one encoded token per path, newest
    /// first, with home compressed to `~` in verbatim tokens.
    pub fn to_lines(&self, home: &str) -> (r: Vec<String>)
        ensures
            r.deep_view() == Seq::new(
                self.spec_items().len(),
                |i: int| line_of(self.spec_items()[i], home@),
            ),
    {
        let mut r: Vec<String> = Vec::new();
        let n = self.items.len();
        let mut i: usize = 0;
        while i < n
            invariant
                0 <= i <= n,
                n == self.items@.len(),
                r@.len() == i,
                forall|k: int|
                    0 <= k < i ==> #[trigger] r@[k]@ == line_of(self.spec_items()[k], home@),
            decreases n - i,
        {
            let token = path_to_path_string(&self.items[i]);
            if !str_starts_with(token.as_str(), sentinel_prefix()) {
                r.push(compress_tilde_impl(token.as_str(), home));
            } else {
                r.push(token);
            }
            i = i + 1;
        }
        proof {
            assert(r.deep_view() =~= Seq::new(
                self.spec_items().len(),
                |i: int| line_of(self.spec_items()[i], home@),
            ));
        }
        r
    }

    /// Reads stored lines back into the list: at most the maximum number of
    /// lines are considered, blank and undecodable lines are skipped with no
    /// effect, verbatim lines have `~` expanded against the home directory,
    /// and the list ends newest-first with the changed flag cleared.
    pub fn read_from_lines(&mut self, lines: &Vec<String>, home: &str, family: PathFamily)
        requires
            old(self).inv(),
        ensures
            final (self).inv(),
            final (self).spec_items() == mru_read_spec(
                old(self).spec_items(),
                lines.deep_view(),
                home@,
                family,
                old(self).spec_max(),
            ),
            !final (self).spec_is_changed(),
            final (self).spec_filename() == old(self).spec_filename(),
            final (self).spec_max() == old(self).spec_max(),
    {
        let ghost pre = old(self).spec_items();
        let ghost all_lines = lines.deep_view();
        let n = lines.len();
        let limit: usize = if n <= self.max_items {
            n
        } else {
            self.max_items
        };
        let ghost taken = if all_lines.len() <= old(self).spec_max() {
            all_lines
        } else {
            all_lines.subrange(0, old(self).spec_max())
        };
        proof {
            assert(taken.len() == limit as int);
            assert(taken.skip(0) =~= taken);
        }
        let mut i: usize = 0;
        while i < limit
            invariant
                0 <= i <= limit,
                limit <= n,
                n == lines@.len(),
                taken.len() == limit as int,
                forall|k: int| 0 <= k < limit ==> taken[k] == lines.deep_view()[k],
                self.inv(),
                self.spec_filename() == old(self).spec_filename(),
                self.spec_max() == old(self).spec_max(),
                mru_insert_lines(self.spec_items(), taken.skip(i as int), home@, family, old(self).spec_max())
                    == mru_insert_lines(pre, taken, home@, family, old(self).spec_max()),
            decreases limit - i,
        {
            let ghost before = self.spec_items();
            let ghost line_view = taken[i as int];
            let line = &lines[i];
            proof {
                assert(line@ == lines.deep_view()[i as int]);
            }
            if !is_blank_line(line.as_str()) {
                if !str_starts_with(line.as_str(), sentinel_prefix()) {
                    let expanded = expand_tilde_impl(line.as_str(), home);
                    let units = match family {
                        PathFamily::Unix => PathUnits::Unix(expanded.as_str().as_bytes_vec()),
                        PathFamily::Windows => PathUnits::Windows(string_to_wide(expanded.as_str())),
                    };
                    proof {
                        assert(units@ == units_from_text(expand_spec(line_view, home@), family));
                    }
                    self.insert(units);
                } else {
                    match path_string_to_path_buf(line.as_str(), family) {
                        Ok(units) => {
                            self.insert(units);
                        },
                        Err(_) => {
                        },
                    }
                }
            }
            proof {
                let max = old(self).spec_max();
                let rest = taken.skip(i as int);
                assert(rest[0] == line_view);
                assert(rest.skip(1) =~= taken.skip(i as int + 1));
                assert(mru_insert_lines(before, rest, home@, family, max) == mru_insert_lines(
                    self.spec_items(),
                    taken.skip(i as int + 1),
                    home@,
                    family,
                    max,
                ));
            }
            i = i + 1;
        }
        proof {
            assert(taken.skip(limit as int) =~= Seq::<Seq<char>>::empty());
            assert(mru_insert_lines(pre, taken, home@, family, old(self).spec_max())
                == self.spec_items());
        }
        let m = self.items.len();
        let mut reversed: Vec<PathUnits> = Vec::new();
        let mut k: usize = 0;
        while k < m
            invariant
                0 <= k <= m,
                m == self.items@.len(),
                reversed@.len() == k,
                forall|j: int|
                    0 <= j < k ==> #[trigger] reversed@[j].deep_view() == self.spec_items()[m - 1
                        - j],
            decreases m - k,
        {
            reversed.push(self.items[m - 1 - k].duplicate());
            k = k + 1;
        }
        let ghost forward = self.spec_items();
        self.items = reversed;
        self.is_changed = false;
        proof {
            assert(self.spec_items() =~= forward.reverse());
            assert(mru_no_dups(self.spec_items())) by {
                assert forall|a: int, b: int|
                    0 <= a < b < self.spec_items().len() implies self.spec_items()[a]
                    != self.spec_items()[b] by {
                    assert(self.spec_items()[a] == forward[forward.len() - 1 - a]);
                    assert(self.spec_items()[b] == forward[forward.len() - 1 - b]);
                    assert(mru_no_dups(forward));
                }
            }
        }
    }
}

} // verus!
