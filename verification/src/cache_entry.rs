//! One cached file: its bytes, the version under which readers see them and
//! the modification time that was recorded when they were read.

use vstd::prelude::*;

verus! {

/// What an entry holds, as plain mathematical values.
pub struct EntryModel {
    pub version: nat,
    pub content: Seq<u8>,
    /// Nanoseconds since the Unix epoch, if the time is known.
    pub modification_time: Option<u64>,
}

/// A versioned blob of file content.
#[derive(Debug)]
pub struct FileCacheEntry {
    version: u32,
    content: Vec<u8>,
    modification_time: Option<u64>,
}

impl View for FileCacheEntry {
    type V = EntryModel;

    closed spec fn view(&self) -> EntryModel {
        EntryModel {
            version: self.version as nat,
            content: self.content@,
            modification_time: self.modification_time,
        }
    }
}

/// The placeholder that stands for a file nobody has read yet.
pub open spec fn empty_entry() -> EntryModel {
    EntryModel { version: 0, content: Seq::empty(), modification_time: None }
}

impl Default for FileCacheEntry {
    fn default() -> (e: FileCacheEntry)
        ensures
            e@ == empty_entry(),
    {
        FileCacheEntry { version: 0, content: Vec::new(), modification_time: None }
    }
}

impl FileCacheEntry {
    /// An unversioned entry that holds `content`.
    pub fn with_content(content: Vec<u8>) -> (e: FileCacheEntry)
        ensures
            e@ == (EntryModel { content: content@, ..empty_entry() }),
    {
        let mut e = FileCacheEntry::default();
        e.set_content(content);
        e
    }

    pub fn version(&self) -> (v: u32)
        ensures
            v as nat == self@.version,
    {
        self.version
    }

    pub fn set_version(&mut self, version: u32)
        ensures
            final(self)@ == (EntryModel { version: version as nat, ..old(self)@ }),
    {
        self.version = version;
    }

    pub fn content(&self) -> (c: &Vec<u8>)
        ensures
            c@ == self@.content,
    {
        &self.content
    }

    pub fn set_content(&mut self, content: Vec<u8>)
        ensures
            final(self)@ == (EntryModel { content: content@, ..old(self)@ }),
    {
        self.content = content;
    }

    pub fn modification_time(&self) -> (t: &Option<u64>)
        ensures
            *t == self@.modification_time,
    {
        &self.modification_time
    }

    pub fn set_modification_time(&mut self, modification_time: Option<u64>)
        ensures
            final(self)@ == (EntryModel { modification_time, ..old(self)@ }),
    {
        self.modification_time = modification_time;
    }

    /// A copy of this entry.
    pub fn duplicate(&self) -> (e: FileCacheEntry)
        ensures
            e@ == self@,
    {
        FileCacheEntry {
            version: self.version,
            content: self.content.clone(),
            modification_time: self.modification_time,
        }
    }
}

} // verus!
