//! Well-known directories and `~` compression for display and storage.
//!
//! Paths here are plain `/`-separated text.  Compression replaces a leading
//! home directory with `~`; expansion undoes it.  Only a whole leading
//! component matches: `/home/philip` does not compress against the home
//! `/home/phil`, and `~bob` never expands.  Filesystem canonicalization is
//! I/O and is left to the caller; these functions are pure text transforms.

use vstd::prelude::*;
use vstd::string::StrSliceExecFns;
use vstd::string::StringExecFns;

verus! {

/// The `~` compression of `path` against `home`: `home` itself becomes `~`,
/// a path under `home` has that prefix replaced by `~`, and every other
/// path is returned unchanged.
pub open spec fn compress_spec(path: Seq<char>, home: Seq<char>) -> Seq<char> {
    if path == home {
        seq!['~']
    } else if path.len() > home.len() && path.subrange(0, home.len() as int) == home && path[
        home.len() as int
    ] == '/' {
        seq!['~'] + path.skip(home.len() as int)
    } else {
        path
    }
}

/// The expansion of a leading `~` in `path` to `home`: `~` itself becomes
/// `home`, `~/rest` becomes `home/rest`, and every other path — including
/// shell forms such as `~bob` — is returned unchanged.
pub open spec fn expand_spec(path: Seq<char>, home: Seq<char>) -> Seq<char> {
    if path == seq!['~'] {
        home
    } else if path.len() >= 2 && path[0] == '~' && path[1] == '/' {
        home + path.skip(1)
    } else {
        path
    }
}

/// Compression undoes expansion and expansion undoes compression, for any
/// home that does not itself start with `~` and any path under it.
pub proof fn lemma_expand_of_compress(path: Seq<char>, home: Seq<char>)
    requires
        compress_spec(path, home) != path || path == home,
        home.len() == 0 || home[0] != '~',
    ensures
        expand_spec(compress_spec(path, home), home) == path,
{
    let c = compress_spec(path, home);
    if path == home {
        assert(c == seq!['~']);
    } else {
        assert(c == seq!['~'] + path.skip(home.len() as int));
        assert(c[0] == '~');
        assert(c[1] == path[home.len() as int]);
        assert(c != seq!['~']);
        assert(home + (seq!['~'] + path.skip(home.len() as int)).skip(1) =~= path);
    }
}

/// Whether two strings hold the same text.
pub fn str_eq(a: &str, b: &str) -> (r: bool)
    ensures
        r == (a@ == b@),
{
    let an = a.unicode_len();
    let bn = b.unicode_len();
    if an != bn {
        return false;
    }
    let mut i: usize = 0;
    while i < an
        invariant
            0 <= i <= an,
            an == a@.len(),
            bn == b@.len(),
            an == bn,
            forall|j: int| 0 <= j < i ==> a@[j] == b@[j],
        decreases an - i,
    {
        if a.get_char(i) != b.get_char(i) {
            return false;
        }
        i = i + 1;
    }
    proof {
        assert(a@ =~= b@);
    }
    true
}

/// Replaces a leading home directory with `~`, matching whole components.
pub fn compress_tilde_impl(path: &str, home: &str) -> (r: String)
    ensures
        r@ == compress_spec(path@, home@),
{
    proof {
        reveal_strlit("~");
    }
    if str_eq(path, home) {
        let r = String::from_str("~");
        proof {
            assert(r@ =~= seq!['~']);
        }
        return r;
    }
    let plen = path.unicode_len();
    let hlen = home.unicode_len();
    if plen > hlen && crate::path_string::str_starts_with(path, home) {
        let boundary = path.get_char(hlen);
        if boundary == '/' {
            let mut r = String::from_str("~");
            r.append(path.substring_char(hlen, plen));
            proof {
                assert(path@.subrange(0, hlen as int) == home@);
                assert(r@ =~= seq!['~'] + path@.skip(hlen as int));
            }
            return r;
        }
    }
    proof {
        if path@.len() > home@.len() && path@.subrange(0, home@.len() as int) == home@ && path@[
            home@.len() as int
        ] == '/' {
            assert(home@.is_prefix_of(path@));
        }
    }
    String::from_str(path)
}

/// Expands a leading `~` or `~/` to the home directory.
pub fn expand_tilde_impl(path: &str, home: &str) -> (r: String)
    ensures
        r@ == expand_spec(path@, home@),
{
    proof {
        reveal_strlit("~");
    }
    if str_eq(path, "~") {
        proof {
            assert("~"@ =~= seq!['~']);
        }
        return String::from_str(home);
    }
    let plen = path.unicode_len();
    if plen >= 2 {
        let c0 = path.get_char(0);
        let c1 = path.get_char(1);
        if c0 == '~' && c1 == '/' {
            let mut r = String::from_str(home);
            r.append(path.substring_char(1, plen));
            proof {
                assert(r@ =~= home@ + path@.skip(1));
            }
            return r;
        }
    }
    proof {
        assert("~"@ =~= seq!['~']);
        assert(path@ != seq!['~']);
    }
    String::from_str(path)
}

/// Replaces a leading home directory with `~`.
pub fn compress_tilde(path: &str, home: &str) -> (r: String)
    ensures
        r@ == compress_spec(path@, home@),
{
    compress_tilde_impl(path, home)
}

/// Expands a leading `~` to the home directory.
pub fn expand_tilde(path: &str, home: &str) -> (r: String)
    ensures
        r@ == expand_spec(path@, home@),
{
    expand_tilde_impl(path, home)
}

/// The storable form of a path: its home directory compressed to `~`.
/// Filesystem canonicalization, which needs I/O, is the caller's step.
pub fn to_canon(path: &str, home: &str) -> (r: String)
    ensures
        r@ == compress_spec(path@, home@),
{
    compress_tilde_impl(path, home)
}

/// The usable form of a stored path: a leading `~` expanded back to the
/// home directory.
pub fn from_canon(path: &str, home: &str) -> (r: String)
    ensures
        r@ == expand_spec(path@, home@),
{
    expand_tilde_impl(path, home)
}

/// The paths with every later duplicate dropped: each path keeps its first
/// occurrence, in the order given.
pub open spec fn dedup_spec(seen: Seq<Seq<char>>, rest: Seq<Seq<char>>) -> Seq<Seq<char>>
    decreases rest.len(),
{
    if rest.len() == 0 {
        seen
    } else if seen.contains(rest[0]) {
        dedup_spec(seen, rest.skip(1))
    } else {
        dedup_spec(seen.push(rest[0]), rest.skip(1))
    }
}

/// Whether the text occurs among the paths.
fn contains_str(paths: &Vec<String>, text: &str) -> (r: bool)
    ensures
        r == paths.deep_view().contains(text@),
{
    let n = paths.len();
    let mut i: usize = 0;
    while i < n
        invariant
            0 <= i <= n,
            n == paths@.len(),
            forall|j: int| 0 <= j < i ==> paths.deep_view()[j] != text@,
        decreases n - i,
    {
        if str_eq(paths[i].as_str(), text) {
            proof {
                assert(paths.deep_view()[i as int] == text@);
            }
            return true;
        }
        i = i + 1;
    }
    proof {
        if paths.deep_view().contains(text@) {
            let w = choose|w: int|
                0 <= w < paths.deep_view().len() && paths.deep_view()[w] == text@;
            assert(paths.deep_view()[w] != text@);
        }
    }
    false
}

/// Drops every later duplicate from a list of paths, keeping the order in
/// which they were first given — as the directories named on a command
/// line are de-duplicated.
pub fn dedup_paths(paths: &Vec<String>) -> (r: Vec<String>)
    ensures
        r.deep_view() == dedup_spec(Seq::<Seq<char>>::empty(), paths.deep_view()),
{
    let mut r: Vec<String> = Vec::new();
    let n = paths.len();
    let mut i: usize = 0;
    proof {
        assert(paths.deep_view().skip(0) =~= paths.deep_view());
        assert(r.deep_view() =~= Seq::<Seq<char>>::empty());
    }
    while i < n
        invariant
            0 <= i <= n,
            n == paths@.len(),
            dedup_spec(r.deep_view(), paths.deep_view().skip(i as int)) == dedup_spec(
                Seq::<Seq<char>>::empty(),
                paths.deep_view(),
            ),
        decreases n - i,
    {
        let ghost seen = r.deep_view();
        let ghost rest = paths.deep_view().skip(i as int);
        proof {
            assert(rest[0] == paths.deep_view()[i as int]);
            assert(rest.skip(1) =~= paths.deep_view().skip(i as int + 1));
        }
        if !contains_str(&r, paths[i].as_str()) {
            let copy = paths[i].clone();
            r.push(copy);
            proof {
                assert(r.deep_view() =~= seen.push(rest[0]));
            }
        }
        i = i + 1;
    }
    proof {
        assert(paths.deep_view().skip(n as int) =~= Seq::<Seq<char>>::empty());
    }
    r
}

/// The well-known directories and files the program refers to, derived
/// from the platform-supplied home and configuration directories.
#[derive(Debug)]
pub struct WellKnownPaths {
    home_dir: String,
    config_dir: String,
    logging_config_file: String,
    mru_file: String,
}

impl WellKnownPaths {
    /// The home directory this value was built from.
    pub closed spec fn spec_home_dir(&self) -> Seq<char> {
        self.home_dir@
    }

    /// The configuration directory this value was built from.
    pub closed spec fn spec_config_dir(&self) -> Seq<char> {
        self.config_dir@
    }

    /// The logging configuration file under the configuration directory.
    pub closed spec fn spec_logging_config_file(&self) -> Seq<char> {
        self.logging_config_file@
    }

    /// The MRU file under the configuration directory.
    pub closed spec fn spec_mru_file(&self) -> Seq<char> {
        self.mru_file@
    }

    /// Builds the well-known paths.  The caller supplies the home and
    /// configuration directories, which only the platform can know.
    pub fn new(home_dir: &str, config_dir: &str) -> (r: WellKnownPaths)
        ensures
            r.spec_home_dir() == home_dir@,
            r.spec_config_dir() == config_dir@,
            r.spec_mru_file() == config_dir@ + "/mru.txt"@,
            r.spec_logging_config_file() == config_dir@ + "/logging.toml"@,
    {
        let mut mru_file = String::from_str(config_dir);
        mru_file.append("/mru.txt");
        let mut logging_config_file = String::from_str(config_dir);
        logging_config_file.append("/logging.toml");
        WellKnownPaths {
            home_dir: String::from_str(home_dir),
            config_dir: String::from_str(config_dir),
            logging_config_file,
            mru_file,
        }
    }

    /// The home directory.
    pub fn home_dir(&self) -> (r: &String)
        ensures
            r@ == self.spec_home_dir(),
    {
        &self.home_dir
    }

    /// The logging configuration file.
    pub fn logging_config_file(&self) -> (r: &String)
        ensures
            r@ == self.spec_logging_config_file(),
    {
        &self.logging_config_file
    }

    /// The MRU file.
    pub fn mru_file(&self) -> (r: &String)
        ensures
            r@ == self.spec_mru_file(),
    {
        &self.mru_file
    }
}

} // verus!
