//! File-manager state: the current directory listing, sorted, and the
//! navigation history.  Reading directories from disk is plain I/O and is
//! done by the caller, which hands listings in.

use vstd::prelude::*;
use vstd::multiset::Multiset;
use vstd::string::StringExecFns;
use vstd::seq_lib::group_seq_properties;
use crate::strutil::{lex_le, spec_lex_le, lemma_lex_le_total};

verus! {

#[derive(Debug)]
pub enum FileOpError {
    IoError(String),
    PermissionDenied(String),
    NotFound(String),
    InvalidPath(String),
    OperationFailed(String),
}

impl FileOpError {
    pub fn message(&self) -> (r: String)
        ensures
            (match self {
                FileOpError::IoError(s) => r@ == "IO error: "@ + s@,
                FileOpError::PermissionDenied(s) => r@ == "Permission denied: "@ + s@,
                FileOpError::NotFound(s) => r@ == "Not found: "@ + s@,
                FileOpError::InvalidPath(s) => r@ == "Invalid path: "@ + s@,
                FileOpError::OperationFailed(s) => r@ == "Operation failed: "@ + s@,
            }),
    {
        match self {
            FileOpError::IoError(s) => "IO error: ".to_owned().concat(s.as_str()),
            FileOpError::PermissionDenied(s) => "Permission denied: ".to_owned().concat(
                s.as_str(),
            ),
            FileOpError::NotFound(s) => "Not found: ".to_owned().concat(s.as_str()),
            FileOpError::InvalidPath(s) => "Invalid path: ".to_owned().concat(s.as_str()),
            FileOpError::OperationFailed(s) => "Operation failed: ".to_owned().concat(
                s.as_str(),
            ),
        }
    }
}

/// One listed entry.
pub struct FileEntry {
    pub path: String,
    pub name: String,
    pub is_dir: bool,
    pub size: u64,
    pub modified: String,
}

/// Listing order: directories first, then by name.
pub open spec fn spec_entry_le(a: FileEntry, b: FileEntry) -> bool {
    if a.is_dir != b.is_dir {
        a.is_dir
    } else {
        spec_lex_le(a.name@, b.name@)
    }
}

/// Neighbours respect the listing order.
pub open spec fn spec_entries_sorted(s: Seq<FileEntry>) -> bool {
    forall|i: int| 0 <= i && i + 1 < s.len() ==> spec_entry_le(#[trigger] s[i], s[i + 1])
}

/// File-manager state.
pub struct FileManager {
    current_dir: String,
    entries: Vec<FileEntry>,
    history: Vec<String>,
}

impl FileManager {
    pub closed spec fn spec_entries(&self) -> Seq<FileEntry> {
        self.entries@
    }

    pub closed spec fn spec_current_dir(&self) -> Seq<char> {
        self.current_dir@
    }

    pub closed spec fn spec_history(&self) -> Seq<String> {
        self.history@
    }

    /// The directory being shown.
    pub fn current_dir(&self) -> (r: &String)
        ensures
            r@ == self.spec_current_dir(),
    {
        &self.current_dir
    }

    /// The back history, oldest first.
    pub fn history(&self) -> (r: &Vec<String>)
        ensures
            r@ == self.spec_history(),
    {
        &self.history
    }

    /// Sorts a listing: directories first, then by name; the result is a
    /// rearrangement of the input.
    fn sort_entries(listing: Vec<FileEntry>) -> (r: Vec<FileEntry>)
        ensures
            r@.to_multiset() == listing@.to_multiset(),
            spec_entries_sorted(r@),
    {
        broadcast use group_seq_properties;
        broadcast use vstd::seq_lib::group_to_multiset_ensures;
        broadcast use vstd::multiset::group_multiset_axioms;

        let mut sorted: Vec<FileEntry> = Vec::new();
        let mut rest = listing;
        let ghost orig = rest@;
        while rest.len() > 0
            invariant
                sorted@.len() + rest@.len() == orig.len(),
                spec_entries_sorted(sorted@),
                sorted@.to_multiset().add(rest@.to_multiset()) == orig.to_multiset(),
            decreases rest@.len(),
        {
            let ghost rest0 = rest@;
            let item = rest.pop().unwrap();
            proof {
                assert(rest0.drop_last().push(rest0.last()) =~= rest0);
                vstd::seq_lib::to_multiset_build(rest0.drop_last(), rest0.last());
            }
            let mut p: usize = 0;
            while p < sorted.len() && Self::entry_le(&sorted[p], &item)
                invariant
                    p <= sorted@.len(),
                    forall|a: int| 0 <= a < p ==> spec_entry_le(#[trigger] sorted@[a], item),
                decreases sorted@.len() - p,
            {
                p += 1;
            }
            assert(p == sorted@.len() || !spec_entry_le(sorted@[p as int], item));
            proof {
                if (p as int) < sorted@.len() {
                    lemma_lex_le_total(item.name@, sorted@[p as int].name@);
                }
            }
            assert(p == sorted@.len() || spec_entry_le(item, sorted@[p as int]));
            let ghost sorted0 = sorted@;
            sorted.insert(p, item);
            proof {
                let s2 = sorted@;
                assert(s2 == sorted0.insert(p as int, item));
                sorted0.insert_ensures(p as int, item);
                assert forall|a: int| 0 <= a && a + 1 < s2.len() implies spec_entry_le(
                    #[trigger] s2[a],
                    s2[a + 1],
                ) by {
                    assert(sorted0.insert(p as int, item).len() == sorted0.len() + 1);
                    if a + 1 < p {
                        assert(sorted0.insert(p as int, item)[a] == sorted0[a]);
                        assert(sorted0.insert(p as int, item)[a + 1] == sorted0[a + 1]);
                        assert(s2[a] == sorted0[a] && s2[a + 1] == sorted0[a + 1]);
                    } else if a + 1 == p {
                        assert(sorted0.insert(p as int, item)[a] == sorted0[a]);
                        assert(sorted0.insert(p as int, item)[p as int] == item);
                        assert(s2[a] == sorted0[a] && s2[a + 1] == item);
                    } else if a == p {
                        assert(sorted0.insert(p as int, item)[p as int] == item);
                        assert(sorted0.insert(p as int, item)[a + 1] == sorted0[a]);
                        assert(s2[a] == item && s2[a + 1] == sorted0[a]);
                    } else {
                        assert(sorted0.insert(p as int, item)[a] == sorted0[a - 1]);
                        assert(sorted0.insert(p as int, item)[a + 1] == sorted0[a]);
                        assert(s2[a] == sorted0[a - 1] && s2[a + 1] == sorted0[a]);
                    }
                }
                vstd::seq_lib::to_multiset_insert(sorted0, p as int, item);
                assert(sorted@.to_multiset().add(rest@.to_multiset()) =~= orig.to_multiset());
            }
        }
        assert(rest@.to_multiset() =~= Multiset::<FileEntry>::empty());
        assert(sorted@.to_multiset() =~= orig.to_multiset());
        sorted
    }

    /// Whether `a` sorts at or before `b` in the listing order.
    fn entry_le(a: &FileEntry, b: &FileEntry) -> (r: bool)
        ensures
            r == spec_entry_le(*a, *b),
    {
        if a.is_dir != b.is_dir {
            a.is_dir
        } else {
            lex_le(a.name.as_str(), b.name.as_str())
        }
    }

    /// A manager showing the given listing of `path`, sorted.
    pub fn new(path: String, listing: Vec<FileEntry>) -> (r: FileManager)
        ensures
            r.spec_current_dir() == path@,
            r.spec_history().len() == 0,
            r.spec_entries().to_multiset() == listing@.to_multiset(),
            spec_entries_sorted(r.spec_entries()),
    {
        let entries = Self::sort_entries(listing);
        FileManager { current_dir: path, entries, history: Vec::new() }
    }

    /// Moves to `path`, pushing the old directory onto the history and
    /// showing the given listing, sorted.
    pub fn navigate(&mut self, path: &str, listing: Vec<FileEntry>) -> (r: Result<
        (),
        FileOpError,
    >)
        ensures
            r.is_ok(),
            final(self).spec_current_dir() == path@,
            final(self).spec_history().len() == old(self).spec_history().len() + 1,
            final(self).spec_history().last()@ == old(self).spec_current_dir(),
            forall|i: int|
                0 <= i < old(self).spec_history().len()
                    ==> #[trigger] final(self).spec_history()[i] == old(self).spec_history()[i],
            final(self).spec_entries().to_multiset() == listing@.to_multiset(),
            spec_entries_sorted(final(self).spec_entries()),
    {
        let prev = self.current_dir.clone();
        self.history.push(prev);
        self.current_dir = path.to_owned();
        self.entries = Self::sort_entries(listing);
        Ok(())
    }

    /// The directory a back step would return to, if any.
    pub fn back_target(&self) -> (r: Option<&String>)
        ensures
            (match r {
                Some(u) => self.spec_history().len() > 0 && u@ == self.spec_history().last()@,
                None => self.spec_history().len() == 0,
            }),
    {
        if self.history.len() > 0 {
            Some(&self.history[self.history.len() - 1])
        } else {
            None
        }
    }

    /// Steps back to the most recent directory, showing the given listing
    /// of it; fails exactly when there is no history.
    pub fn back(&mut self, listing: Vec<FileEntry>) -> (r: Result<(), FileOpError>)
        ensures
            r.is_ok() <==> old(self).spec_history().len() > 0,
            r.is_ok() ==> {
                &&& final(self).spec_current_dir() == old(self).spec_history().last()@
                &&& final(self).spec_history() == old(self).spec_history().drop_last()
                &&& final(self).spec_entries().to_multiset() == listing@.to_multiset()
                &&& spec_entries_sorted(final(self).spec_entries())
            },
            r.is_err() ==> *final(self) == *old(self) && (r matches Err(
                FileOpError::OperationFailed(m),
            ) && m@ == "No previous directory"@),
    {
        if self.history.len() == 0 {
            return Err(FileOpError::OperationFailed("No previous directory".to_owned()));
        }
        let prev = self.history.pop().unwrap();
        self.current_dir = prev;
        self.entries = Self::sort_entries(listing);
        Ok(())
    }

    /// The current listing, in order.
    pub fn list(&self) -> (r: &Vec<FileEntry>)
        ensures
            r@ == self.spec_entries(),
    {
        &self.entries
    }

    /// The entry at `index`, if in range.
    pub fn get_entry(&self, index: usize) -> (r: Option<&FileEntry>)
        ensures
            (match r {
                Some(e) => index < self.spec_entries().len() && *e == self.spec_entries()[
                    index as int],
                None => index >= self.spec_entries().len(),
            }),
    {
        if index < self.entries.len() {
            Some(&self.entries[index])
        } else {
            None
        }
    }

    /// The full path of the entry at `index`, if in range.
    pub fn get_path(&self, index: usize) -> (r: Option<String>)
        ensures
            (match r {
                Some(p) => index < self.spec_entries().len() && p@ == self.spec_entries()[
                    index as int].path@,
                None => index >= self.spec_entries().len(),
            }),
    {
        if index < self.entries.len() {
            Some(self.entries[index].path.clone())
        } else {
            None
        }
    }
}

} // verus!
