//! Directory handles and raw 32-byte directory records.

use vstd::prelude::*;
use crate::block::BlockDevice;
use crate::cluster::Cluster;
use crate::filesystem::FatFileSystem;

pub mod raw_dir_entry_iterator;

verus! {

/// FAT attributes byte of a directory record.
#[derive(Debug, Clone, Copy, PartialEq, Eq, Structural)]
pub struct Attributes(pub u8);

impl Attributes {
    /// The directory bit.
    pub const DIRECTORY: u8 = 0x10;

    /// Wrap a raw attributes byte.
    pub fn new(value: u8) -> (r: Attributes)
        ensures
            r.0 == value,
    {
        Attributes(value)
    }

    /// The directory bit is set.
    pub fn is_directory(self) -> (r: bool)
        ensures
            r == (self.0 & 0x10 != 0),
    {
        self.0 & 0x10 != 0
    }
}

/// A raw 32-byte directory record, stamped with the coordinates of the slot it
/// was read from so a caller can write a modification back to the exact place.
pub struct FatDirEntry {
    /// The record's 32 bytes, exactly as they lie on disk.
    pub data: Vec<u8>,

    /// The cluster whose data block holds the record.
    pub cluster: Cluster,

    /// The block within that cluster.
    pub block_index: u32,

    /// The record's byte offset inside the block.
    pub entry_offset: u32,
}

impl FatDirEntry {
    /// The size in bytes of a directory record.
    pub const LEN: usize = 32;

    /// A record is well formed when it holds exactly 32 bytes.
    pub open spec fn wf(self) -> bool {
        self.data@.len() == 32
    }

    /// The record's first byte: 0x00 marks the end of the directory, 0xE5 a
    /// deleted record. Interpretation is the caller's responsibility.
    pub fn first_byte(&self) -> (r: u8)
        requires
            self.wf(),
        ensures
            r == self.data@[0],
    {
        self.data[0]
    }

    /// The record's attributes byte.
    pub fn attribute(&self) -> (r: Attributes)
        requires
            self.wf(),
        ensures
            r.0 == self.data@[11],
    {
        Attributes(self.data[11])
    }
}

/// Coordinates of the on-disk record that a logical directory entry came from.
#[derive(Debug, Clone, Copy, PartialEq, Eq, Structural)]
pub struct DirectoryEntryRawInfo {
    /// The cluster whose data block holds the record.
    pub cluster: Cluster,

    /// The block within that cluster.
    pub block_index: u32,

    /// The record's byte offset inside the block.
    pub entry_offset: u32,
}

/// A logical directory entry, as directory traversal produces it.
pub struct DirectoryEntry {
    /// First cluster of the entry's data.
    pub start_cluster: Cluster,

    /// Where the entry's on-disk record lies, if it has one. The root
    /// directory has none: it cannot be renamed or unlinked.
    pub raw_info: Option<DirectoryEntryRawInfo>,

    /// The file size in bytes; zero for directories.
    pub file_size: u32,

    /// Creation timestamp, in seconds since the UNIX epoch.
    pub creation_timestamp: u64,

    /// Last-access timestamp, in seconds since the UNIX epoch.
    pub last_access_timestamp: u64,

    /// Last-modification timestamp, in seconds since the UNIX epoch.
    pub last_modification_timestamp: u64,

    /// The entry's name.
    pub file_name: String,

    /// The entry's attributes.
    pub attribute: Attributes,
}

/// A directory handle: a filesystem borrow plus the entry naming the directory.
pub struct Directory<'a, T> {
    /// The filesystem the directory lives on.
    pub fs: &'a FatFileSystem<T>,

    /// The entry describing the directory itself.
    pub dir_info: DirectoryEntry,
}

impl<'a, T: BlockDevice> Directory<'a, T> {
    /// A handle from a logical entry.
    pub fn from_entry(fs: &'a FatFileSystem<T>, dir_info: DirectoryEntry) -> (r: Directory<
        'a,
        T,
    >)
        ensures
            r.fs == fs,
            r.dir_info == dir_info,
    {
        Directory { fs, dir_info }
    }
}

} // verus!
