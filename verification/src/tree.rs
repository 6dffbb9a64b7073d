//! An in-memory snapshot of file contents, keyed by path.
//!
//! The engine plans and executes against such snapshots; the caller reads
//! real files into one and applies the returned writes. Later entries are
//! shadowed by earlier ones, so updating is a push to the front.

use vstd::prelude::*;
use crate::paths::path_eq;

verus! {

/// One file: its path (as segments) and its text.
pub struct FileEntry {
    pub path: Vec<String>,
    pub content: String,
}

/// A set of files keyed by path.
pub struct FileTree {
    pub entries: Vec<FileEntry>,
}

/// The map a list of entries denotes; an earlier entry wins over a later
/// one with the same path.
pub open spec fn entries_map(s: Seq<FileEntry>) -> Map<Seq<Seq<char>>, Seq<char>>
    decreases s.len(),
{
    if s.len() == 0 {
        Map::empty()
    } else {
        entries_map(s.skip(1)).insert(s[0].path.deep_view(), s[0].content@)
    }
}

/// Lookup in such a map as an `Option`.
pub open spec fn map_file(m: Map<Seq<Seq<char>>, Seq<char>>, p: Seq<Seq<char>>) -> Option<
    Seq<char>,
> {
    if m.dom().contains(p) {
        Some(m[p])
    } else {
        None
    }
}

impl FileTree {
    /// The map of file contents this snapshot denotes.
    pub open spec fn as_map(&self) -> Map<Seq<Seq<char>>, Seq<char>> {
        entries_map(self.entries@)
    }

    /// The content at `p`, absent when no file is there.
    pub open spec fn file_at(&self, p: Seq<Seq<char>>) -> Option<Seq<char>> {
        map_file(self.as_map(), p)
    }

    /// An empty snapshot.
    pub fn empty() -> (r: FileTree)
        ensures
            r.as_map() == Map::<Seq<Seq<char>>, Seq<char>>::empty(),
    {
        FileTree { entries: Vec::new() }
    }

    /// The content of the file at `path`, if any.
    pub fn file_content(&self, path: &Vec<String>) -> (r: Option<&String>)
        ensures
            match r {
                Some(c) => self.file_at(path.deep_view()) == Some(c@),
                None => self.file_at(path.deep_view()) is None,
            },
    {
        let n = self.entries.len();
        let mut i: usize = 0;
        proof {
            assert(self.entries@.skip(0) =~= self.entries@);
        }
        while i < n
            invariant
                n == self.entries.len(),
                i <= n,
                map_file(entries_map(self.entries@), path.deep_view()) == map_file(
                    entries_map(self.entries@.skip(i as int)),
                    path.deep_view(),
                ),
            decreases n - i,
        {
            if path_eq(&self.entries[i].path, path) {
                proof {
                    assert(self.entries@.skip(i as int)[0] == self.entries@[i as int]);
                }
                return Some(&self.entries[i].content);
            }
            proof {
                assert(self.entries@.skip(i as int)[0] == self.entries@[i as int]);
                assert(self.entries@.skip(i as int).skip(1) =~= self.entries@.skip(i + 1));
            }
            i += 1;
        }
        proof {
            assert(self.entries@.skip(n as int) =~= Seq::<FileEntry>::empty());
        }
        None
    }

    /// Writes `content` at `path`, replacing whatever was there.
    pub fn set_file(&mut self, path: Vec<String>, content: String)
        ensures
            final(self).as_map() == old(self).as_map().insert(path.deep_view(), content@),
    {
        let ghost prev = self.entries@;
        let ghost p = path.deep_view();
        let ghost c = content@;
        self.entries.insert(0, FileEntry { path, content });
        proof {
            assert(self.entries@.skip(1) =~= prev);
            assert(self.entries@[0].path.deep_view() == p);
            assert(self.entries@[0].content@ == c);
        }
    }
}

} // verus!
