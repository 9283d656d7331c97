//! Error taxonomy shared across the library.

use vstd::prelude::*;

verus! {

/// Errors reported by filesystem operations.
#[derive(Debug, Clone, Copy, PartialEq, Eq)]
pub enum FileSystemError {
    /// A block device read failed.
    ReadFailed,
    /// A block device write failed.
    WriteFailed,
    /// The MBR or the boot record failed validation.
    InvalidPartition,
    /// The requested partition index is out of range.
    PartitionNotFound,
    /// Cluster allocation exhausted its search without finding a free slot.
    NoSpaceLeft,
    /// A file or directory already exists where one was to be created.
    FileExists,
    /// The entry found is not a directory.
    NotADirectory,
    /// The entry found is not a file.
    NotAFile,
    /// Escape hatch for unsupported situations, carrying a short description.
    Custom { name: &'static str },
}

/// Result alias used by every fallible operation of the library.
pub type FileSystemResult<T> = Result<T, FileSystemError>;

} // verus!
