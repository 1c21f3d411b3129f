//! The in-memory entry model: file entries, attribute bits and file times.
use vstd::prelude::*;

verus! {

/// Attribute bit marking a directory entry.
pub const DIRECTORY_BIT: u64 = 0x10;

/// Attribute bit marking an archived entry.
pub const ARCHIVE_BIT: u64 = 0x20;

/// Nanoseconds between 1601-01-01 (the FILETIME epoch) and 1970-01-01 (the
/// Unix epoch).
pub const FILE_TIME_TO_UNIX_EPOCH_DIFF: u64 = 11_644_473_600_000_000_000;

/// A file entry's attribute bitfield.
#[derive(Debug, Clone, Copy, PartialEq, Eq, Structural)]
pub struct Attributes {
    pub bits: u64,
}

impl Attributes {
    /// Keep every bit of `bits`, reserved ones included.
    pub fn from_bits_retain(bits: u64) -> (r: Attributes)
        ensures
            r.bits == bits,
    {
        Attributes { bits }
    }

    /// The directory attribute.
    pub fn directory() -> (r: Attributes)
        ensures
            r.bits == DIRECTORY_BIT,
    {
        Attributes { bits: DIRECTORY_BIT }
    }

    /// The archive attribute.
    pub fn archive() -> (r: Attributes)
        ensures
            r.bits == ARCHIVE_BIT,
    {
        Attributes { bits: ARCHIVE_BIT }
    }

    /// Whether every bit of `other` is set in `self`.
    pub fn contains(&self, other: Attributes) -> (r: bool)
        ensures
            r == (self.bits & other.bits == other.bits),
    {
        self.bits & other.bits == other.bits
    }
}

/// File times in FILETIME format: 100-nanosecond ticks since 1601-01-01 UTC.
#[derive(Debug, Clone, Copy, PartialEq, Eq, Structural)]
pub struct FileTimes {
    pub created: u64,
    pub accessed: u64,
    pub modified: u64,
}

/// The Unix-epoch nanosecond count of a FILETIME tick count, or `None` when
/// it overflows or lies before the Unix epoch.
pub open spec fn spec_file_time_to_unix_nanos(file_time: u64) -> Option<u64> {
    if file_time * 100 <= u64::MAX && file_time * 100 >= FILE_TIME_TO_UNIX_EPOCH_DIFF {
        Some((file_time * 100 - FILE_TIME_TO_UNIX_EPOCH_DIFF) as u64)
    } else {
        None
    }
}

/// The FILETIME tick count of a Unix-epoch nanosecond count, or `None` when
/// it overflows.
pub open spec fn spec_unix_nanos_to_file_time(unix_nanos: u64) -> Option<u64> {
    if unix_nanos + FILE_TIME_TO_UNIX_EPOCH_DIFF <= u64::MAX {
        Some(((unix_nanos + FILE_TIME_TO_UNIX_EPOCH_DIFF) / 100) as u64)
    } else {
        None
    }
}

/// Convert a FILETIME tick count to nanoseconds since the Unix epoch.
pub fn file_time_to_system_time(file_time: u64) -> (r: Option<u64>)
    ensures
        r == spec_file_time_to_unix_nanos(file_time),
{
    match file_time.checked_mul(100) {
        Some(nanos) => nanos.checked_sub(FILE_TIME_TO_UNIX_EPOCH_DIFF),
        None => None,
    }
}

/// Convert nanoseconds since the Unix epoch to a FILETIME tick count.
pub fn system_time_to_file_time(unix_nanos: u64) -> (r: Option<u64>)
    ensures
        r == spec_unix_nanos_to_file_time(unix_nanos),
{
    match unix_nanos.checked_add(FILE_TIME_TO_UNIX_EPOCH_DIFF) {
        Some(filetime_nanos) => Some(filetime_nanos / 100),
        None => None,
    }
}

impl FileTimes {
    /// The creation time, as nanoseconds since the Unix epoch.
    pub fn created(&self) -> (r: Option<u64>)
        ensures
            r == spec_file_time_to_unix_nanos(self.created),
    {
        file_time_to_system_time(self.created)
    }

    /// The access time, as nanoseconds since the Unix epoch.
    pub fn accessed(&self) -> (r: Option<u64>)
        ensures
            r == spec_file_time_to_unix_nanos(self.accessed),
    {
        file_time_to_system_time(self.accessed)
    }

    /// The modification time, as nanoseconds since the Unix epoch.
    pub fn modified(&self) -> (r: Option<u64>)
        ensures
            r == spec_file_time_to_unix_nanos(self.modified),
    {
        file_time_to_system_time(self.modified)
    }

    /// Set the creation time from nanoseconds since the Unix epoch.
    ///
    /// Returns `None`, leaving the times unchanged, when the time cannot be
    /// represented as a FILETIME tick count.
    pub fn set_created(&mut self, unix_nanos: u64) -> (r: Option<()>)
        ensures
            match spec_unix_nanos_to_file_time(unix_nanos) {
                Some(ft) => r == Some(()) && *final(self) == FileTimes {
                    created: ft,
                    ..*old(self)
                },
                None => r is None && *final(self) == *old(self),
            },
    {
        match system_time_to_file_time(unix_nanos) {
            Some(ft) => {
                self.created = ft;
                Some(())
            },
            None => None,
        }
    }

    /// Set the access time from nanoseconds since the Unix epoch.
    ///
    /// Returns `None`, leaving the times unchanged, when the time cannot be
    /// represented as a FILETIME tick count.
    pub fn set_accessed(&mut self, unix_nanos: u64) -> (r: Option<()>)
        ensures
            match spec_unix_nanos_to_file_time(unix_nanos) {
                Some(ft) => r == Some(()) && *final(self) == FileTimes {
                    accessed: ft,
                    ..*old(self)
                },
                None => r is None && *final(self) == *old(self),
            },
    {
        match system_time_to_file_time(unix_nanos) {
            Some(ft) => {
                self.accessed = ft;
                Some(())
            },
            None => None,
        }
    }

    /// Set the modification time from nanoseconds since the Unix epoch.
    ///
    /// Returns `None`, leaving the times unchanged, when the time cannot be
    /// represented as a FILETIME tick count.
    pub fn set_modified(&mut self, unix_nanos: u64) -> (r: Option<()>)
        ensures
            match spec_unix_nanos_to_file_time(unix_nanos) {
                Some(ft) => r == Some(()) && *final(self) == FileTimes {
                    modified: ft,
                    ..*old(self)
                },
                None => r is None && *final(self) == *old(self),
            },
    {
        match system_time_to_file_time(unix_nanos) {
            Some(ft) => {
                self.modified = ft;
                Some(())
            },
            None => None,
        }
    }
}

/// A file entry: one 64-byte record of the file table.
#[derive(Debug, Clone, Copy)]
pub struct FileEntry {
    /// Byte offset of the entry's name in the name table.
    pub name_position: u64,
    /// The attribute bitfield.
    pub attributes: Attributes,
    /// Creation, access and modification times.
    pub file_times: FileTimes,
    /// For a directory: offset of the owned record in the directory table.
    /// For a file: offset of the payload from the archive's data position.
    pub data_position: u64,
    /// Uncompressed payload size in bytes.
    pub data_size: u64,
    /// Compressed payload size in bytes, or `None` when stored uncompressed.
    pub compressed_data_size: Option<u64>,
}

impl FileEntry {
    /// Whether the directory attribute bit is set.
    pub open spec fn spec_is_dir(self) -> bool {
        self.attributes.bits & DIRECTORY_BIT == DIRECTORY_BIT
    }

    /// Returns true if this is for a directory.
    pub fn is_dir(&self) -> (r: bool)
        ensures
            r == self.spec_is_dir(),
    {
        self.attributes.contains(Attributes::directory())
    }

    /// Returns true if this is for a file.
    pub fn is_file(&self) -> (r: bool)
        ensures
            r == !self.spec_is_dir(),
    {
        !self.is_dir()
    }

    /// Returns true if the payload is stored compressed.
    pub fn is_compressed(&self) -> (r: bool)
        ensures
            r == self.compressed_data_size is Some,
    {
        self.compressed_data_size.is_some()
    }

    /// Get the file size.
    pub fn size(&self) -> (r: u64)
        ensures
            r == self.data_size,
    {
        self.data_size
    }

    /// Get the compressed file size, if it is compressed.
    pub fn compressed_size(&self) -> (r: Option<u64>)
        ensures
            r == self.compressed_data_size,
    {
        self.compressed_data_size
    }

    /// Get the file times.
    pub fn file_times(&self) -> (r: FileTimes)
        ensures
            r == self.file_times,
    {
        self.file_times
    }

    /// Get the file attributes.
    pub fn get_attributes(&self) -> (r: Attributes)
        ensures
            r == self.attributes,
    {
        self.attributes
    }
}

} // verus!
