//! A reader for encrypted, optionally compressed `Data.wolf` archives
//! (DX archive, version 6).
//!
//! The archive is handed over as in-memory bytes. The reader derives the
//! 12-byte XOR key, parses the three header tables (file names, file
//! entries, directory entries), exposes the directory tree, and decodes
//! file payloads, decompressing them when they are stored compressed.
pub mod archive_reader;
pub mod decompress;
pub mod error;
pub mod file_entry;
pub mod file_reader;
pub mod key;
pub mod sjis;
pub mod walk_dir;

pub use archive_reader::ArchiveReader;
pub use archive_reader::DirectoryEntry;
pub use archive_reader::HeaderData;
pub use decompress::decompress_file_data;
pub use error::Error;
pub use file_entry::file_time_to_system_time;
pub use file_entry::system_time_to_file_time;
pub use file_entry::Attributes;
pub use file_entry::FileEntry;
pub use file_entry::FileTimes;
pub use file_reader::FileReader;
pub use key::create_key;
pub use key::key_xor;
pub use walk_dir::WalkDirEntry;
pub use walk_dir::WalkDirIter;

