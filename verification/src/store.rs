//! The set of shader source files a resolution works over.
//!
//! The pipeline itself never touches the file system: the host reads the
//! files and hands them over as plain bytes, keyed by path.  A file the host
//! could not read is kept with the cause of the failure, so that resolution
//! can report it as a read error rather than a missing include.

use crate::bytes::bytes_eq;
use vstd::prelude::*;

verus! {

/// Spec-level mirror of [`FileData`].
pub enum FileDataV {
    Text(Seq<u8>),
    Unreadable(Seq<u8>),
}

/// The contents of one file: its bytes, or the cause of a failed read.
#[derive(Debug, Clone)]
pub enum FileData {
    Text(Vec<u8>),
    Unreadable(Vec<u8>),
}

impl View for FileData {
    type V = FileDataV;

    open spec fn view(&self) -> FileDataV {
        match self {
            FileData::Text(c) => FileDataV::Text(c@),
            FileData::Unreadable(cause) => FileDataV::Unreadable(cause@),
        }
    }
}

/// Spec-level mirror of [`FileEntry`].
pub struct FileEntryV {
    pub path: Seq<u8>,
    pub data: FileDataV,
}

/// One file of the source set.
#[derive(Debug, Clone)]
pub struct FileEntry {
    pub path: Vec<u8>,
    pub data: FileData,
}

impl View for FileEntry {
    type V = FileEntryV;

    open spec fn view(&self) -> FileEntryV {
        FileEntryV { path: self.path@, data: self.data@ }
    }
}

/// All files available to one resolution, in insertion order.  A lookup
/// returns the first entry with a matching path.
#[derive(Debug, Clone)]
pub struct FileStore {
    pub entries: Vec<FileEntry>,
}

impl View for FileStore {
    type V = Seq<FileEntryV>;

    open spec fn view(&self) -> Seq<FileEntryV> {
        self.entries@.map_values(|e: FileEntry| e@)
    }
}

pub open spec fn sp_lookup_from(store: Seq<FileEntryV>, path: Seq<u8>, i: int) -> Option<
    FileDataV,
>
    decreases store.len() - i,
{
    if i >= store.len() {
        None
    } else if store[i].path == path {
        Some(store[i].data)
    } else {
        sp_lookup_from(store, path, i + 1)
    }
}

/// The contents the store associates with `path`, if any.
pub open spec fn sp_lookup(store: Seq<FileEntryV>, path: Seq<u8>) -> Option<FileDataV> {
    sp_lookup_from(store, path, 0)
}

impl FileStore {
    /// An empty source set.
    pub fn new() -> (r: FileStore)
        ensures
            r@ == Seq::<FileEntryV>::empty(),
    {
        let r = FileStore { entries: Vec::new() };
        proof {
            assert(r@ =~= Seq::<FileEntryV>::empty());
        }
        r
    }

    /// Adds a readable file.
    pub fn add_text(&mut self, path: Vec<u8>, content: Vec<u8>)
        ensures
            final(self)@ == old(self)@.push(
                FileEntryV { path: path@, data: FileDataV::Text(content@) },
            ),
    {
        proof {
            let e = FileEntry { path, data: FileData::Text(content) };
            assert forall|i: int| 0 <= i < self.entries@.len() + 1 implies self.entries@.push(
                e,
            ).map_values(|x: FileEntry| x@)[i] == self@.push(e@)[i] by {
                if i < self.entries@.len() {
                    assert(self.entries@.push(e)[i] == self.entries@[i]);
                } else {
                    assert(self.entries@.push(e)[i] == e);
                }
            }
            assert(self.entries@.push(e).map_values(|x: FileEntry| x@) =~= self@.push(e@));
        }
        self.entries.push(FileEntry { path, data: FileData::Text(content) });
    }

    /// Adds a file whose read failed, with the cause of the failure.
    pub fn add_unreadable(&mut self, path: Vec<u8>, cause: Vec<u8>)
        ensures
            final(self)@ == old(self)@.push(
                FileEntryV { path: path@, data: FileDataV::Unreadable(cause@) },
            ),
    {
        proof {
            let e = FileEntry { path, data: FileData::Unreadable(cause) };
            assert forall|i: int| 0 <= i < self.entries@.len() + 1 implies self.entries@.push(
                e,
            ).map_values(|x: FileEntry| x@)[i] == self@.push(e@)[i] by {
                if i < self.entries@.len() {
                    assert(self.entries@.push(e)[i] == self.entries@[i]);
                } else {
                    assert(self.entries@.push(e)[i] == e);
                }
            }
            assert(self.entries@.push(e).map_values(|x: FileEntry| x@) =~= self@.push(e@));
        }
        self.entries.push(FileEntry { path, data: FileData::Unreadable(cause) });
    }

    /// The first entry whose path equals `path`, if any.
    pub fn get(&self, path: &Vec<u8>) -> (r: Option<&FileData>)
        ensures
            match r {
                Some(d) => sp_lookup(self@, path@) == Some(d@),
                None => sp_lookup(self@, path@) is None,
            },
    {
        let mut i: usize = 0;
        while i < self.entries.len()
            invariant
                i <= self.entries@.len(),
                self@.len() == self.entries@.len(),
                sp_lookup(self@, path@) == sp_lookup_from(self@, path@, i as int),
            decreases self.entries@.len() - i,
        {
            if bytes_eq(&self.entries[i].path, path) {
                proof {
                    assert(self@[i as int] == self.entries@[i as int]@);
                }
                return Some(&self.entries[i].data);
            }
            i = i + 1;
            proof {
                assert(self@[i - 1] == self.entries@[i - 1]@);
            }
        }
        None
    }
}

} // verus!
