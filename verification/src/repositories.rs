//! The set of repositories the program has open.
//!
//! Opening a repository is outside work done by the application through its
//! version-control library; what is kept here is the decision logic around
//! it: which repositories are already open — by metadata path or working
//! directory — and the bookkeeping of newly opened ones next to the MRU
//! list that remembers them.

use vstd::prelude::*;
use crate::mru_list::MruList;
use crate::paths::str_eq;

verus! {

/// Extra behavior a repository handle offers the user interface: a short
/// display name.  The application implements this for its repository type.
pub trait RepositoryExtensions {
    fn display_name(&self) -> String;
}

/// One opened repository: where its metadata lives and, for non-bare
/// repositories, its working directory.
#[derive(Debug)]
pub struct RepoEntry {
    pub path: String,
    pub workdir: Option<String>,
}

/// Whether the entry answers to the given path, either as its metadata
/// path or as its working directory.
pub open spec fn entry_matches(entry: &RepoEntry, path: Seq<char>) -> bool {
    entry.path@ == path || match entry.workdir {
        Some(w) => w@ == path,
        None => false,
    }
}

/// The repositories the program has open, with the MRU list that remembers
/// them.
pub struct Repositories {
    pub mru: MruList,
    pub repos: Vec<RepoEntry>,
}

impl Repositories {
    /// An empty registry around the given MRU list.
    pub fn new(mru: MruList) -> (r: Repositories)
        ensures
            r.repos@.len() == 0,
            r.mru == mru,
    {
        Repositories { mru, repos: Vec::new() }
    }

    /// The open repositories, oldest first.
    pub fn iter(&self) -> (r: &Vec<RepoEntry>)
        ensures
            r == &self.repos,
    {
        &self.repos
    }

    /// Whether a repository at this path is already open.  A repository
    /// answers both to its metadata path and to its working directory.
    pub fn repo_is_open(&self, path: &str) -> (r: bool)
        ensures
            r == exists|i: int|
                0 <= i < self.repos@.len() && entry_matches(#[trigger] &self.repos@[i], path@),
    {
        let n = self.repos.len();
        let mut i: usize = 0;
        while i < n
            invariant
                0 <= i <= n,
                n == self.repos@.len(),
                forall|j: int| 0 <= j < i ==> !entry_matches(#[trigger] &self.repos@[j], path@),
            decreases n - i,
        {
            let entry = &self.repos[i];
            if str_eq(entry.path.as_str(), path) {
                return true;
            }
            let workdir_hit = match &entry.workdir {
                Some(w) => str_eq(w.as_str(), path),
                None => false,
            };
            if workdir_hit {
                return true;
            }
            i = i + 1;
        }
        false
    }

    /// Records a successfully opened repository.  The caller, which did
    /// the opening, also inserts the path into the MRU list and persists
    /// it.
    pub fn register(&mut self, entry: RepoEntry)
        ensures
            final (self).repos@ == old(self).repos@.push(entry),
            final (self).mru == old(self).mru,
    {
        self.repos.push(entry);
    }
}

} // verus!
