//! The error type of the archive reader.
use vstd::prelude::*;

verus! {

/// Everything that can go wrong while reading an archive.
#[derive(Debug, Clone, Copy, PartialEq, Eq)]
pub enum Error {
    /// The archive ended before the requested bytes could be read.
    UnexpectedEof,
    /// The first two bytes are not the `DX` magic.
    InvalidMagic { magic: [u8; 2] },
    /// The version word is not 6.
    InvalidVersion { version: u16 },
    /// A name-table entry's checksum does not match its parity field, or a
    /// zero-length entry carries a non-zero parity.
    InvalidFileNameParity,
    /// A file name is not valid Shift-JIS.
    InvalidFileName,
    /// The code page is not 932 (Shift-JIS).
    UnknownCodePage { code_page: u64 },
    /// `read_header` was called a second time.
    HeaderAlreadyRead,
    /// A navigation operation ran before `read_header`.
    HeaderNotRead,
    /// A file entry's `name_position` is not a key of the name table.
    InvalidFileNamePosition,
    /// A directory offset is not a key of the directory table.
    InvalidDirectoryPosition,
    /// A directory's own offset is not a key of the file table.
    InvalidFilePosition,
    /// A child offset of a directory is not a key of the file table.
    InvalidDirectoryFileIndex,
    /// The entry is not a directory.
    NotADir,
    /// The entry is not a file.
    NotAFile,
    /// A compressed payload is malformed.
    DecompressionFailed,
}

} // verus!
