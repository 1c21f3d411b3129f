//! The archive reader: header parsing, the three lookup tables, directory
//! navigation and file payload decoding.
//!
//! The reader owns the archive bytes. Every read decodes against the
//! keystream addressed by the cipher position, which a seek resets to the
//! target absolute offset; header and table bytes are therefore the
//! archive XORed with the repeating 12-byte pad at absolute offsets.
use crate::decompress::decompress_file_data;
use crate::decompress::spec_decompress;
use crate::error::Error;
use crate::file_entry::Attributes;
use crate::file_entry::FileEntry;
use crate::file_entry::FileTimes;
use crate::file_reader::FileReader;
use crate::key::create_key;
use crate::key::key_xor;
use crate::key::KEY_LEN;
use crate::key::spec_derive_key;
use crate::key::xor_seq;
use crate::key::DEFAULT_KEY_STRING;
use crate::sjis::decode_file_name;
use crate::sjis::spec_decode_file_name;
use std::collections::BTreeMap;
use vstd::bytes::spec_u16_from_le_bytes;
use vstd::bytes::spec_u32_from_le_bytes;
use vstd::bytes::spec_u64_from_le_bytes;
use vstd::bytes::u16_from_le_bytes;
use vstd::bytes::u32_from_le_bytes;
use vstd::bytes::u64_from_le_bytes;
use vstd::prelude::*;

verus! {

/// Size in bytes of a file entry record.
pub const FILE_ENTRY_SIZE: u64 = 64;

/// The whole archive with the cipher removed: byte `i` XORed with
/// `key[i % 12]`.
pub open spec fn decrypted(data: Seq<u8>, key: Seq<u8>) -> Seq<u8> {
    xor_seq(key, 0, data)
}

/// Reading `n` bytes at cipher position `pos` yields the matching window of
/// the decrypted archive.
pub proof fn lemma_xor_window(data: Seq<u8>, key: Seq<u8>, pos: int, n: int)
    requires
        key.len() == 12,
        0 <= pos,
        0 <= n,
        pos + n <= data.len(),
    ensures
        xor_seq(key, pos, data.subrange(pos, pos + n)) == decrypted(data, key).subrange(
            pos,
            pos + n,
        ),
{
    assert(xor_seq(key, pos, data.subrange(pos, pos + n)) =~= decrypted(data, key).subrange(
        pos,
        pos + n,
    ));
}

/// The header for a directory entry: one 32-byte record of the directory
/// table.
#[derive(Debug, Clone, Copy)]
pub struct DirectoryEntry {
    /// Offset of this record in the directory table (a self-reference).
    pub directory_position: u64,
    /// Offset of the parent record, or `None` for the root.
    pub parent_directory_position: Option<u64>,
    /// Count of children.
    pub num_files: u64,
    /// Offset of the first child's record in the file table.
    pub file_head_position: u64,
}

impl DirectoryEntry {
    /// Get the number of files in this dir.
    pub fn num_files(&self) -> (r: u64)
        ensures
            r == self.num_files,
    {
        self.num_files
    }
}

/// The parsed header tables, as mathematical maps from table offsets to
/// records; names are character sequences.
pub ghost struct HeaderModel {
    /// Absolute offset where file payloads begin.
    pub data_position: u64,
    /// Decoded name by offset in the name table.
    pub names: Map<u64, Seq<char>>,
    /// File entry by offset in the file table.
    pub files: Map<u64, FileEntry>,
    /// Directory entry by offset in the directory table.
    pub dirs: Map<u64, DirectoryEntry>,
}

/// Data extracted from the header.
pub struct HeaderData {
    /// Absolute offset where file payloads begin.
    pub data_position: u64,
    /// Decoded name by offset in the name table.
    pub file_name_table: BTreeMap<u64, String>,
    /// File entry by offset in the file table.
    pub file_table: BTreeMap<u64, FileEntry>,
    /// Directory entry by offset in the directory table.
    pub directory_table: BTreeMap<u64, DirectoryEntry>,
}

impl View for HeaderData {
    type V = HeaderModel;

    open spec fn view(&self) -> HeaderModel {
        HeaderModel {
            data_position: self.data_position,
            names: self.file_name_table@.map_values(|s: String| s@),
            files: self.file_table@,
            dirs: self.directory_table@,
        }
    }
}

/// A reader for an archive held in memory.
pub struct ArchiveReader {
    /// The raw archive bytes.
    pub data: Vec<u8>,
    /// The cipher position: the keystream index of the next byte read.
    pub position: u64,
    /// The derived 12-byte XOR key.
    pub key: [u8; KEY_LEN],
    /// The parsed header tables, once `read_header` has succeeded.
    pub header_data: Option<HeaderData>,
}

impl ArchiveReader {
    /// The decrypted archive bytes.
    pub open spec fn plain(self) -> Seq<u8> {
        decrypted(self.data@, self.key@)
    }

    /// Whether `other` carries the same bytes, key and parsed tables as
    /// `self`: everything but the cipher position.
    pub open spec fn stream_unchanged(self, other: ArchiveReader) -> bool {
        &&& self.data == other.data
        &&& self.key == other.key
        &&& self.header_data == other.header_data
    }

    /// Create a reader for a `Data.wolf` archive held in memory.
    pub fn new(data: Vec<u8>) -> (r: ArchiveReader)
        ensures
            r.data == data,
            r.position == 0,
            r.key@ == spec_derive_key(DEFAULT_KEY_STRING@),
            r.header_data is None,
    {
        let key = create_key(DEFAULT_KEY_STRING);
        ArchiveReader { data, position: 0, key, header_data: None }
    }

    /// Read `len` bytes at the cipher position and decode them against the
    /// keystream.
    #[verifier::loop_isolation(false)]
    fn read_encoded(&mut self, len: usize) -> (r: Result<Vec<u8>, Error>)
        ensures
            old(self).stream_unchanged(*final(self)),
            match r {
                Ok(buf) => {
                    &&& old(self).position + len <= old(self).data@.len()
                    &&& final(self).position == old(self).position + len
                    &&& buf@ == old(self).plain().subrange(
                        old(self).position as int,
                        old(self).position + len,
                    )
                },
                Err(e) => {
                    &&& e == Error::UnexpectedEof
                    &&& old(self).position + len > old(self).data@.len()
                    &&& final(self).position == old(self).position
                },
            },
    {
        let n: usize = self.data.len();
        let pos: u64 = self.position;
        if pos > n as u64 || len as u64 > n as u64 - pos {
            return Err(Error::UnexpectedEof);
        }
        let start: usize = pos as usize;
        let mut buf: Vec<u8> = Vec::new();
        let mut i: usize = 0;
        while i < len
            invariant
                0 <= i <= len,
                buf@.len() == i,
                forall|j: int| 0 <= j < i ==> buf@[j] == self.data@[start + j],
            decreases len - i,
        {
            let b: u8 = self.data[start + i];
            buf.push(b);
            i += 1;
        }
        proof {
            assert(buf@ =~= self.data@.subrange(pos as int, pos + len));
        }
        key_xor(pos, self.key, &mut buf);
        proof {
            lemma_xor_window(self.data@, self.key@, pos as int, len as int);
        }
        self.position = pos + len as u64;
        Ok(buf)
    }

    /// Read an encoded little-endian u16.
    fn read_encoded_u16(&mut self) -> (r: Result<u16, Error>)
        ensures
            old(self).stream_unchanged(*final(self)),
            match r {
                Ok(v) => {
                    &&& old(self).position + 2 <= old(self).data@.len()
                    &&& final(self).position == old(self).position + 2
                    &&& v == spec_u16_from_le_bytes(
                        old(self).plain().subrange(
                            old(self).position as int,
                            old(self).position + 2,
                        ),
                    )
                },
                Err(e) => {
                    &&& e == Error::UnexpectedEof
                    &&& old(self).position + 2 > old(self).data@.len()
                    &&& final(self).position == old(self).position
                },
            },
    {
        match self.read_encoded(2) {
            Ok(buf) => Ok(u16_from_le_bytes(buf.as_slice())),
            Err(e) => Err(e),
        }
    }

    /// Read an encoded little-endian u32.
    fn read_encoded_u32(&mut self) -> (r: Result<u32, Error>)
        ensures
            old(self).stream_unchanged(*final(self)),
            match r {
                Ok(v) => {
                    &&& old(self).position + 4 <= old(self).data@.len()
                    &&& final(self).position == old(self).position + 4
                    &&& v == spec_u32_from_le_bytes(
                        old(self).plain().subrange(
                            old(self).position as int,
                            old(self).position + 4,
                        ),
                    )
                },
                Err(e) => {
                    &&& e == Error::UnexpectedEof
                    &&& old(self).position + 4 > old(self).data@.len()
                    &&& final(self).position == old(self).position
                },
            },
    {
        match self.read_encoded(4) {
            Ok(buf) => Ok(u32_from_le_bytes(buf.as_slice())),
            Err(e) => Err(e),
        }
    }

    /// Read an encoded little-endian u64.
    fn read_encoded_u64(&mut self) -> (r: Result<u64, Error>)
        ensures
            old(self).stream_unchanged(*final(self)),
            match r {
                Ok(v) => {
                    &&& old(self).position + 8 <= old(self).data@.len()
                    &&& final(self).position == old(self).position + 8
                    &&& v == spec_u64_from_le_bytes(
                        old(self).plain().subrange(
                            old(self).position as int,
                            old(self).position + 8,
                        ),
                    )
                },
                Err(e) => {
                    &&& e == Error::UnexpectedEof
                    &&& old(self).position + 8 > old(self).data@.len()
                    &&& final(self).position == old(self).position
                },
            },
    {
        match self.read_encoded(8) {
            Ok(buf) => Ok(u64_from_le_bytes(buf.as_slice())),
            Err(e) => Err(e),
        }
    }
}

/// The wrapping 16-bit sum of the bytes: the name-table parity checksum.
pub open spec fn checksum16(b: Seq<u8>) -> u16
    decreases b.len(),
{
    if b.len() == 0 {
        0u16
    } else {
        ((checksum16(b.drop_last()) + b.last()) % 0x10000) as u16
    }
}

/// Compute the wrapping 16-bit sum of the bytes.
#[verifier::loop_isolation(false)]
fn compute_checksum16(bytes: &Vec<u8>) -> (r: u16)
    ensures
        r == checksum16(bytes@),
{
    let mut acc: u16 = 0;
    let mut i: usize = 0;
    while i < bytes.len()
        invariant
            0 <= i <= bytes@.len(),
            acc == checksum16(bytes@.take(i as int)),
        decreases bytes@.len() - i,
    {
        let b: u8 = bytes[i];
        acc = ((acc as u32 + b as u32) % 0x10000) as u16;
        proof {
            assert(bytes@.take(i + 1 as int).drop_last() =~= bytes@.take(i as int));
            assert(bytes@.take(i + 1 as int).last() == bytes@[i as int]);
        }
        i += 1;
    }
    proof {
        assert(bytes@.take(bytes@.len() as int) =~= bytes@);
    }
    acc
}

/// How many bytes the name-table entry at `pos` occupies: 4 bytes of length
/// and parity, then twice `4 * len` bytes of names.
pub open spec fn spec_name_entry_size(p: Seq<u8>, pos: int) -> int {
    let len = spec_u16_from_le_bytes(p.subrange(pos, pos + 2));
    if len == 0 {
        4
    } else {
        4 + 8 * len
    }
}

/// Parse the name-table entry at `pos` of the decrypted archive `p`: the
/// upper-cased lookup name and the original-case name, or the error the
/// entry fails with.
pub open spec fn spec_parse_name_entry(p: Seq<u8>, pos: int) -> Result<
    (Seq<char>, Seq<char>),
    Error,
> {
    if pos + 4 > p.len() {
        Err(Error::UnexpectedEof)
    } else {
        let len = spec_u16_from_le_bytes(p.subrange(pos, pos + 2));
        let parity = spec_u16_from_le_bytes(p.subrange(pos + 2, pos + 4));
        if len == 0 {
            if parity != 0 {
                Err(Error::InvalidFileNameParity)
            } else {
                Ok((Seq::<char>::empty(), Seq::<char>::empty()))
            }
        } else {
            let nb = 4 * len as int;
            if pos + 4 + nb > p.len() {
                Err(Error::UnexpectedEof)
            } else {
                let upper_bytes = p.subrange(pos + 4, pos + 4 + nb);
                if checksum16(upper_bytes) != parity {
                    Err(Error::InvalidFileNameParity)
                } else if pos + 4 + 2 * nb > p.len() {
                    Err(Error::UnexpectedEof)
                } else {
                    let name_bytes = p.subrange(pos + 4 + nb, pos + 4 + 2 * nb);
                    match (spec_decode_file_name(upper_bytes), spec_decode_file_name(name_bytes)) {
                        (Some(upper), Some(name)) => Ok((upper, name)),
                        _ => Err(Error::InvalidFileName),
                    }
                }
            }
        }
    }
}

/// The little-endian u64 at `pos` of `p`.
pub open spec fn spec_u64_at(p: Seq<u8>, pos: int) -> u64 {
    spec_u64_from_le_bytes(p.subrange(pos, pos + 8))
}

/// Parse the 64-byte file entry at `pos` of the decrypted archive `p`.
pub open spec fn spec_parse_file_entry(p: Seq<u8>, pos: int) -> Result<FileEntry, Error> {
    if pos + 64 > p.len() {
        Err(Error::UnexpectedEof)
    } else {
        let compressed = spec_u64_at(p, pos + 56);
        Ok(
            FileEntry {
                name_position: spec_u64_at(p, pos),
                attributes: Attributes { bits: spec_u64_at(p, pos + 8) },
                file_times: FileTimes {
                    created: spec_u64_at(p, pos + 16),
                    accessed: spec_u64_at(p, pos + 24),
                    modified: spec_u64_at(p, pos + 32),
                },
                data_position: spec_u64_at(p, pos + 40),
                data_size: spec_u64_at(p, pos + 48),
                compressed_data_size: if compressed == u64::MAX {
                    None
                } else {
                    Some(compressed)
                },
            },
        )
    }
}

/// Parse the 32-byte directory entry at `pos` of the decrypted archive `p`.
pub open spec fn spec_parse_directory_entry(p: Seq<u8>, pos: int) -> Result<
    DirectoryEntry,
    Error,
> {
    if pos + 32 > p.len() {
        Err(Error::UnexpectedEof)
    } else {
        let parent = spec_u64_at(p, pos + 8);
        Ok(
            DirectoryEntry {
                directory_position: spec_u64_at(p, pos),
                parent_directory_position: if parent == u64::MAX {
                    None
                } else {
                    Some(parent)
                },
                num_files: spec_u64_at(p, pos + 16),
                file_head_position: spec_u64_at(p, pos + 24),
            },
        )
    }
}

impl ArchiveReader {
    /// Read one name-table entry at the cipher position: the upper-cased
    /// lookup name (its parity checked) and the original-case name.
    pub fn read_file_name_data(&mut self) -> (r: Result<(String, String), Error>)
        ensures
            old(self).stream_unchanged(*final(self)),
            match spec_parse_name_entry(old(self).plain(), old(self).position as int) {
                Ok(names) => {
                    &&& r matches Ok(pair) && pair.0@ == names.0 && pair.1@ == names.1
                    &&& final(self).position == old(self).position + spec_name_entry_size(
                        old(self).plain(),
                        old(self).position as int,
                    )
                    &&& final(self).position <= old(self).data@.len()
                },
                Err(e) => r matches Err(e2) && e2 == e,
            },
    {
        let len = match self.read_encoded_u16() {
            Ok(v) => v,
            Err(e) => {
                return Err(e);
            },
        };
        let parity = match self.read_encoded_u16() {
            Ok(v) => v,
            Err(e) => {
                return Err(e);
            },
        };
        if len == 0 {
            if parity != 0 {
                return Err(Error::InvalidFileNameParity);
            }
            return Ok((String::new(), String::new()));
        }
        let nb: usize = (len as usize) * 4;
        let bytes_upper = match self.read_encoded(nb) {
            Ok(v) => v,
            Err(e) => {
                return Err(e);
            },
        };
        let bytes_upper_parity = compute_checksum16(&bytes_upper);
        if bytes_upper_parity != parity {
            return Err(Error::InvalidFileNameParity);
        }
        let bytes = match self.read_encoded(nb) {
            Ok(v) => v,
            Err(e) => {
                return Err(e);
            },
        };
        let upper = match decode_file_name(&bytes_upper) {
            Some(s) => s,
            None => {
                return Err(Error::InvalidFileName);
            },
        };
        let name = match decode_file_name(&bytes) {
            Some(s) => s,
            None => {
                return Err(Error::InvalidFileName);
            },
        };
        Ok((upper, name))
    }

    /// Read one 64-byte file entry at the cipher position.
    fn read_file_entry(&mut self) -> (r: Result<FileEntry, Error>)
        ensures
            old(self).stream_unchanged(*final(self)),
            match spec_parse_file_entry(old(self).plain(), old(self).position as int) {
                Ok(fe) => {
                    &&& r == Ok::<FileEntry, Error>(fe)
                    &&& final(self).position == old(self).position + 64
                },
                Err(e) => r == Err::<FileEntry, Error>(e),
            },
    {
        let name_position = match self.read_encoded_u64() {
            Ok(v) => v,
            Err(e) => {
                return Err(e);
            },
        };
        let attributes = match self.read_encoded_u64() {
            Ok(v) => v,
            Err(e) => {
                return Err(e);
            },
        };
        let created = match self.read_encoded_u64() {
            Ok(v) => v,
            Err(e) => {
                return Err(e);
            },
        };
        let accessed = match self.read_encoded_u64() {
            Ok(v) => v,
            Err(e) => {
                return Err(e);
            },
        };
        let modified = match self.read_encoded_u64() {
            Ok(v) => v,
            Err(e) => {
                return Err(e);
            },
        };
        let data_position = match self.read_encoded_u64() {
            Ok(v) => v,
            Err(e) => {
                return Err(e);
            },
        };
        let data_size = match self.read_encoded_u64() {
            Ok(v) => v,
            Err(e) => {
                return Err(e);
            },
        };
        let compressed_data_size = match self.read_encoded_u64() {
            Ok(v) => v,
            Err(e) => {
                return Err(e);
            },
        };
        let attributes = Attributes::from_bits_retain(attributes);
        let compressed_data_size = if compressed_data_size == u64::MAX {
            None
        } else {
            Some(compressed_data_size)
        };
        Ok(
            FileEntry {
                name_position,
                attributes,
                file_times: FileTimes { created, accessed, modified },
                data_position,
                data_size,
                compressed_data_size,
            },
        )
    }

    /// Read one 32-byte directory entry at the cipher position.
    fn read_directory_entry(&mut self) -> (r: Result<DirectoryEntry, Error>)
        ensures
            old(self).stream_unchanged(*final(self)),
            match spec_parse_directory_entry(old(self).plain(), old(self).position as int) {
                Ok(de) => {
                    &&& r == Ok::<DirectoryEntry, Error>(de)
                    &&& final(self).position == old(self).position + 32
                },
                Err(e) => r == Err::<DirectoryEntry, Error>(e),
            },
    {
        let directory_position = match self.read_encoded_u64() {
            Ok(v) => v,
            Err(e) => {
                return Err(e);
            },
        };
        let parent_directory_position = match self.read_encoded_u64() {
            Ok(v) => v,
            Err(e) => {
                return Err(e);
            },
        };
        let num_files = match self.read_encoded_u64() {
            Ok(v) => v,
            Err(e) => {
                return Err(e);
            },
        };
        let file_head_position = match self.read_encoded_u64() {
            Ok(v) => v,
            Err(e) => {
                return Err(e);
            },
        };
        let parent_directory_position = if parent_directory_position == u64::MAX {
            None
        } else {
            Some(parent_directory_position)
        };
        Ok(
            DirectoryEntry {
                directory_position,
                parent_directory_position,
                num_files,
                file_head_position,
            },
        )
    }
}

/// Parse name-table entries of the decrypted archive `p` from relative
/// offset `rel` until it reaches `end_rel`, adding each original-case name
/// under the entry's offset. `base` is the absolute offset of the name
/// table. Returns the table and the relative offset after the last entry.
pub open spec fn spec_parse_names(
    p: Seq<u8>,
    base: int,
    rel: int,
    end_rel: int,
    acc: Map<u64, Seq<char>>,
) -> Result<(Map<u64, Seq<char>>, int), Error>
    decreases vstd::math::max(end_rel - rel, 0),
{
    if rel >= end_rel {
        Ok((acc, rel))
    } else {
        match spec_parse_name_entry(p, base + rel) {
            Err(e) => Err(e),
            Ok(names) => spec_parse_names(
                p,
                base,
                rel + spec_name_entry_size(p, base + rel),
                end_rel,
                acc.insert(rel as u64, names.1),
            ),
        }
    }
}

/// Parse 64-byte file entries from relative offset `rel` until it reaches
/// `end_rel`, keying each by its offset within the file table, which starts
/// at relative offset `table_start`.
pub open spec fn spec_parse_files(
    p: Seq<u8>,
    base: int,
    rel: int,
    table_start: int,
    end_rel: int,
    acc: Map<u64, FileEntry>,
) -> Result<(Map<u64, FileEntry>, int), Error>
    decreases vstd::math::max(end_rel - rel, 0),
{
    if rel >= end_rel {
        Ok((acc, rel))
    } else {
        match spec_parse_file_entry(p, base + rel) {
            Err(e) => Err(e),
            Ok(fe) => spec_parse_files(
                p,
                base,
                rel + 64,
                table_start,
                end_rel,
                acc.insert((rel - table_start) as u64, fe),
            ),
        }
    }
}

/// Parse 32-byte directory entries from relative offset `rel` until it
/// reaches `end_rel`, keying each by its offset within the directory table,
/// which starts at relative offset `table_start`.
pub open spec fn spec_parse_dirs(
    p: Seq<u8>,
    base: int,
    rel: int,
    table_start: int,
    end_rel: int,
    acc: Map<u64, DirectoryEntry>,
) -> Result<(Map<u64, DirectoryEntry>, int), Error>
    decreases vstd::math::max(end_rel - rel, 0),
{
    if rel >= end_rel {
        Ok((acc, rel))
    } else {
        match spec_parse_directory_entry(p, base + rel) {
            Err(e) => Err(e),
            Ok(de) => spec_parse_dirs(
                p,
                base,
                rel + 32,
                table_start,
                end_rel,
                acc.insert((rel - table_start) as u64, de),
            ),
        }
    }
}

/// Parse the fixed header fields and the three tables of the decrypted
/// archive `p`, the two magic bytes having already matched.
pub open spec fn spec_parse_after_magic(p: Seq<u8>) -> Result<HeaderModel, Error> {
    if p.len() < 4 {
        Err(Error::UnexpectedEof)
    } else {
        let version = spec_u16_from_le_bytes(p.subrange(2, 4));
        if version != 6 {
            Err(Error::InvalidVersion { version })
        } else if p.len() < 8 {
            Err(Error::UnexpectedEof)
        } else {
            let file_header_size = spec_u32_from_le_bytes(p.subrange(4, 8));
            if p.len() < 48 {
                Err(Error::UnexpectedEof)
            } else {
                let data_position = spec_u64_at(p, 8);
                let file_name_table_position = spec_u64_at(p, 16);
                let file_table_position = spec_u64_at(p, 24);
                let directory_table_position = spec_u64_at(p, 32);
                let code_page = spec_u64_at(p, 40);
                if code_page != 932 {
                    Err(Error::UnknownCodePage { code_page })
                } else {
                    let base = file_name_table_position as int;
                    match spec_parse_names(
                        p,
                        base,
                        0,
                        file_table_position as int,
                        Map::<u64, Seq<char>>::empty(),
                    ) {
                        Err(e) => Err(e),
                        Ok((names, rel1)) => match spec_parse_files(
                            p,
                            base,
                            rel1,
                            file_table_position as int,
                            directory_table_position as int,
                            Map::<u64, FileEntry>::empty(),
                        ) {
                            Err(e) => Err(e),
                            Ok((files, rel2)) => match spec_parse_dirs(
                                p,
                                base,
                                rel2,
                                directory_table_position as int,
                                file_header_size as int,
                                Map::<u64, DirectoryEntry>::empty(),
                            ) {
                                Err(e) => Err(e),
                                Ok((dirs, _)) => Ok(
                                    HeaderModel { data_position, names, files, dirs },
                                ),
                            },
                        },
                    }
                }
            }
        }
    }
}

impl ArchiveReader {
    /// Read the archive header and populate the three lookup tables.
    ///
    /// Single-shot: a second call fails with `HeaderAlreadyRead`.
    #[verifier::loop_isolation(false)]
    #[verifier::rlimit(60)]
    pub fn read_header(&mut self) -> (r: Result<(), Error>)
        ensures
            final(self).data == old(self).data,
            final(self).key == old(self).key,
            old(self).header_data is Some ==> r == Err::<(), Error>(Error::HeaderAlreadyRead)
                && *final(self) == *old(self),
            old(self).header_data is None && old(self).position == 0 ==> {
                let p = old(self).plain();
                &&& p.len() < 2 ==> r == Err::<(), Error>(Error::UnexpectedEof)
                    && final(self).header_data is None
                &&& p.len() >= 2 && !(p[0] == 0x44 && p[1] == 0x58) ==> (r matches Err(
                    Error::InvalidMagic { magic },
                ) && magic@ == p.subrange(0, 2) && final(self).header_data is None)
                &&& p.len() >= 2 && p[0] == 0x44 && p[1] == 0x58 ==> match spec_parse_after_magic(
                    p,
                ) {
                    Ok(m) => r == Ok::<(), Error>(()) && (final(self).header_data matches Some(h)
                        && h@ == m),
                    Err(e) => r == Err::<(), Error>(e) && final(self).header_data is None,
                }
            },
    {
        if self.header_data.is_some() {
            return Err(Error::HeaderAlreadyRead);
        }
        let ghost p: Seq<u8> = self.plain();
        let magic = match self.read_encoded(2) {
            Ok(v) => v,
            Err(e) => {
                return Err(e);
            },
        };
        // the magic bytes spell "DX"
        if !(magic[0] == 0x44 && magic[1] == 0x58) {
            let magic_bytes: [u8; 2] = [magic[0], magic[1]];
            proof {
                if old(self).position == 0 {
                    assert(magic_bytes@ =~= p.subrange(0, 2));
                }
            }
            return Err(Error::InvalidMagic { magic: magic_bytes });
        }
        let version = match self.read_encoded_u16() {
            Ok(v) => v,
            Err(e) => {
                return Err(e);
            },
        };
        if version != 6 {
            return Err(Error::InvalidVersion { version });
        }
        let file_header_size = match self.read_encoded_u32() {
            Ok(v) => v,
            Err(e) => {
                return Err(e);
            },
        };
        let data_position = match self.read_encoded_u64() {
            Ok(v) => v,
            Err(e) => {
                return Err(e);
            },
        };
        let file_name_table_position = match self.read_encoded_u64() {
            Ok(v) => v,
            Err(e) => {
                return Err(e);
            },
        };
        let file_table_position = match self.read_encoded_u64() {
            Ok(v) => v,
            Err(e) => {
                return Err(e);
            },
        };
        let directory_table_position = match self.read_encoded_u64() {
            Ok(v) => v,
            Err(e) => {
                return Err(e);
            },
        };
        let code_page = match self.read_encoded_u64() {
            Ok(v) => v,
            Err(e) => {
                return Err(e);
            },
        };
        if code_page != 932 {
            return Err(Error::UnknownCodePage { code_page });
        }
        // seek to the start of the name table: the cipher position follows
        self.position = file_name_table_position;

        let ghost base: int = file_name_table_position as int;
        let mut file_name_table: BTreeMap<u64, String> = BTreeMap::new();
        let mut file_table: BTreeMap<u64, FileEntry> = BTreeMap::new();
        let mut directory_table: BTreeMap<u64, DirectoryEntry> = BTreeMap::new();
        proof {
            assert(file_name_table@.map_values(|s: String| s@) =~= Map::<u64, Seq<char>>::empty());
        }

        while self.position - file_name_table_position < file_table_position
            invariant
                self.data == old(self).data,
                self.key == old(self).key,
                self.header_data is None,
                self.position >= file_name_table_position,
                spec_parse_names(
                    p,
                    base,
                    0,
                    file_table_position as int,
                    Map::<u64, Seq<char>>::empty(),
                ) == spec_parse_names(
                    p,
                    base,
                    self.position - file_name_table_position,
                    file_table_position as int,
                    file_name_table@.map_values(|s: String| s@),
                ),
            decreases vstd::math::max(
                file_table_position - (self.position - file_name_table_position),
                0,
            ),
        {
            let ghost rel: int = self.position - file_name_table_position;
            let ghost acc: Map<u64, Seq<char>> = file_name_table@.map_values(|s: String| s@);
            let relative_position = self.position - file_name_table_position;
            let entry = match self.read_file_name_data() {
                Ok(v) => v,
                Err(e) => {
                    return Err(e);
                },
            };
            let file_name = entry.1;
            file_name_table.insert(relative_position, file_name);
            proof {
                assert(file_name_table@.map_values(|s: String| s@) =~= acc.insert(
                    rel as u64,
                    spec_parse_name_entry(p, base + rel).unwrap().1,
                ));
            }
        }

        let ghost names: Map<u64, Seq<char>> = file_name_table@.map_values(|s: String| s@);
        let ghost rel1: int = self.position - file_name_table_position;
        proof {
            assert(spec_parse_names(
                p,
                base,
                0,
                file_table_position as int,
                Map::<u64, Seq<char>>::empty(),
            ) == Ok::<(Map<u64, Seq<char>>, int), Error>((names, rel1)));
        }

        while self.position - file_name_table_position < directory_table_position
            invariant
                self.data == old(self).data,
                self.key == old(self).key,
                self.header_data is None,
                self.position >= file_name_table_position,
                self.position - file_name_table_position >= file_table_position,
                spec_parse_files(
                    p,
                    base,
                    rel1,
                    file_table_position as int,
                    directory_table_position as int,
                    Map::<u64, FileEntry>::empty(),
                ) == spec_parse_files(
                    p,
                    base,
                    self.position - file_name_table_position,
                    file_table_position as int,
                    directory_table_position as int,
                    file_table@,
                ),
            decreases vstd::math::max(
                directory_table_position - (self.position - file_name_table_position),
                0,
            ),
        {
            let relative_position = self.position - file_name_table_position
                - file_table_position;
            let file_entry = match self.read_file_entry() {
                Ok(v) => v,
                Err(e) => {
                    return Err(e);
                },
            };
            file_table.insert(relative_position, file_entry);
        }

        let ghost files: Map<u64, FileEntry> = file_table@;
        let ghost rel2: int = self.position - file_name_table_position;
        proof {
            assert(spec_parse_files(
                p,
                base,
                rel1,
                file_table_position as int,
                directory_table_position as int,
                Map::<u64, FileEntry>::empty(),
            ) == Ok::<(Map<u64, FileEntry>, int), Error>((files, rel2)));
        }

        while self.position - file_name_table_position < file_header_size as u64
            invariant
                self.data == old(self).data,
                self.key == old(self).key,
                self.header_data is None,
                self.position >= file_name_table_position,
                self.position - file_name_table_position >= directory_table_position,
                spec_parse_dirs(
                    p,
                    base,
                    rel2,
                    directory_table_position as int,
                    file_header_size as int,
                    Map::<u64, DirectoryEntry>::empty(),
                ) == spec_parse_dirs(
                    p,
                    base,
                    self.position - file_name_table_position,
                    directory_table_position as int,
                    file_header_size as int,
                    directory_table@,
                ),
            decreases vstd::math::max(
                file_header_size - (self.position - file_name_table_position),
                0,
            ),
        {
            let relative_position = self.position - file_name_table_position
                - directory_table_position;
            let directory_entry = match self.read_directory_entry() {
                Ok(v) => v,
                Err(e) => {
                    return Err(e);
                },
            };
            directory_table.insert(relative_position, directory_entry);
        }

        self.header_data = Some(
            HeaderData { data_position, file_name_table, file_table, directory_table },
        );
        Ok(())
    }
}

impl ArchiveReader {
    /// Get the name of a file entry.
    pub fn get_file_name(&self, file_entry: &FileEntry) -> (r: Result<&String, Error>)
        ensures
            self.header_data is None ==> r == Err::<&String, Error>(Error::HeaderNotRead),
            self.header_data matches Some(h) ==> {
                &&& h@.names.contains_key(file_entry.name_position) ==> (r matches Ok(s) && s@
                    == h@.names[file_entry.name_position])
                &&& !h@.names.contains_key(file_entry.name_position) ==> r == Err::<
                    &String,
                    Error,
                >(Error::InvalidFileNamePosition)
            },
    {
        let header_data = match &self.header_data {
            Some(h) => h,
            None => {
                return Err(Error::HeaderNotRead);
            },
        };
        proof {
            assert(header_data@.names.dom() =~= header_data.file_name_table@.dom());
        }
        match header_data.file_name_table.get(&file_entry.name_position) {
            Some(file_name) => Ok(file_name),
            None => Err(Error::InvalidFileNamePosition),
        }
    }

    /// Get a dir from a file that is for a dir.
    pub fn get_dir_from_file(&self, file_entry: &FileEntry) -> (r: Result<&DirectoryEntry, Error>)
        ensures
            self.header_data is None ==> r == Err::<&DirectoryEntry, Error>(Error::HeaderNotRead),
            self.header_data is Some && !file_entry.spec_is_dir() ==> r == Err::<
                &DirectoryEntry,
                Error,
            >(Error::NotADir),
            self.header_data matches Some(h) ==> file_entry.spec_is_dir() ==> {
                &&& h@.dirs.contains_key(file_entry.data_position) ==> (r matches Ok(d) && *d
                    == h@.dirs[file_entry.data_position])
                &&& !h@.dirs.contains_key(file_entry.data_position) ==> r == Err::<
                    &DirectoryEntry,
                    Error,
                >(Error::InvalidDirectoryPosition)
            },
    {
        let header_data = match &self.header_data {
            Some(h) => h,
            None => {
                return Err(Error::HeaderNotRead);
            },
        };
        if !file_entry.is_dir() {
            return Err(Error::NotADir);
        }
        match header_data.directory_table.get(&file_entry.data_position) {
            Some(directory_entry) => Ok(directory_entry),
            None => Err(Error::InvalidDirectoryPosition),
        }
    }

    /// Get the nth child of a directory: `Ok(None)` past the last child,
    /// `InvalidDirectoryFileIndex` when the child's offset is not in the
    /// file table.
    pub fn get_dir_file(&self, directory: &DirectoryEntry, index: usize) -> (r: Result<
        Option<&FileEntry>,
        Error,
    >)
        ensures
            self.header_data is None ==> r == Err::<Option<&FileEntry>, Error>(
                Error::HeaderNotRead,
            ),
            self.header_data matches Some(h) ==> {
                &&& directory.num_files > usize::MAX ==> r == Ok::<Option<&FileEntry>, Error>(None)
                &&& directory.num_files <= usize::MAX && index >= directory.num_files ==> r
                    == Ok::<Option<&FileEntry>, Error>(None)
                &&& directory.num_files <= usize::MAX && index < directory.num_files ==> {
                    let key = directory.file_head_position + 64 * index;
                    &&& (key <= u64::MAX && h@.files.contains_key(key as u64)) ==> (r matches Ok(
                        Some(f),
                    ) && *f == h@.files[key as u64])
                    &&& !(key <= u64::MAX && h@.files.contains_key(key as u64)) ==> r == Err::<
                        Option<&FileEntry>,
                        Error,
                    >(Error::InvalidDirectoryFileIndex)
                }
            },
    {
        let header_data = match &self.header_data {
            Some(h) => h,
            None => {
                return Err(Error::HeaderNotRead);
            },
        };
        if directory.num_files > usize::MAX as u64 {
            return Ok(None);
        }
        if index >= directory.num_files as usize {
            return Ok(None);
        }
        let offset = match (index as u64).checked_mul(FILE_ENTRY_SIZE) {
            Some(v) => v,
            None => {
                return Err(Error::InvalidDirectoryFileIndex);
            },
        };
        let position = match directory.file_head_position.checked_add(offset) {
            Some(v) => v,
            None => {
                return Err(Error::InvalidDirectoryFileIndex);
            },
        };
        match header_data.file_table.get(&position) {
            Some(file_entry) => Ok(Some(file_entry)),
            None => Err(Error::InvalidDirectoryFileIndex),
        }
    }

    /// Get the file entry for a dir: the entry that carries the directory's
    /// own name.
    pub fn get_file_from_dir(&self, directory_entry: &DirectoryEntry) -> (r: Result<
        &FileEntry,
        Error,
    >)
        ensures
            self.header_data is None ==> r == Err::<&FileEntry, Error>(Error::HeaderNotRead),
            self.header_data matches Some(h) ==> {
                &&& h@.files.contains_key(directory_entry.directory_position) ==> (r matches Ok(f)
                    && *f == h@.files[directory_entry.directory_position])
                &&& !h@.files.contains_key(directory_entry.directory_position) ==> r == Err::<
                    &FileEntry,
                    Error,
                >(Error::InvalidFilePosition)
            },
    {
        let header_data = match &self.header_data {
            Some(h) => h,
            None => {
                return Err(Error::HeaderNotRead);
            },
        };
        match header_data.file_table.get(&directory_entry.directory_position) {
            Some(file_entry) => Ok(file_entry),
            None => Err(Error::InvalidFilePosition),
        }
    }

    /// Get the root directory: the record at offset 0 of the directory
    /// table.
    pub fn get_root_dir(&self) -> (r: Result<Option<&DirectoryEntry>, Error>)
        ensures
            self.header_data is None ==> r == Err::<Option<&DirectoryEntry>, Error>(
                Error::HeaderNotRead,
            ),
            self.header_data matches Some(h) ==> {
                &&& h@.dirs.contains_key(0) ==> (r matches Ok(Some(d)) && *d == h@.dirs[0])
                &&& !h@.dirs.contains_key(0) ==> r == Ok::<Option<&DirectoryEntry>, Error>(None)
            },
    {
        let header_data = match &self.header_data {
            Some(h) => h,
            None => {
                return Err(Error::HeaderNotRead);
            },
        };
        Ok(header_data.directory_table.get(&0))
    }

    /// Get the parent dir for a dir: `Ok(None)` for the root.
    pub fn get_parent_dir(&self, directory_entry: &DirectoryEntry) -> (r: Result<
        Option<&DirectoryEntry>,
        Error,
    >)
        ensures
            self.header_data is None ==> r == Err::<Option<&DirectoryEntry>, Error>(
                Error::HeaderNotRead,
            ),
            self.header_data is Some && directory_entry.parent_directory_position is None ==> r
                == Ok::<Option<&DirectoryEntry>, Error>(None),
            self.header_data matches Some(h)
                ==> directory_entry.parent_directory_position matches Some(parent) ==> {
                &&& h@.dirs.contains_key(parent) ==> (r matches Ok(Some(d)) && *d
                    == h@.dirs[parent])
                &&& !h@.dirs.contains_key(parent) ==> r == Err::<Option<&DirectoryEntry>, Error>(
                    Error::InvalidDirectoryPosition,
                )
            },
    {
        let header_data = match &self.header_data {
            Some(h) => h,
            None => {
                return Err(Error::HeaderNotRead);
            },
        };
        let parent_directory_position = match directory_entry.parent_directory_position {
            Some(v) => v,
            None => {
                return Ok(None);
            },
        };
        match header_data.directory_table.get(&parent_directory_position) {
            Some(directory_entry) => Ok(Some(directory_entry)),
            None => Err(Error::InvalidDirectoryPosition),
        }
    }
}

/// Copy `len` bytes of `data` starting at `start`.
#[verifier::loop_isolation(false)]
fn copy_range(data: &Vec<u8>, start: usize, len: usize) -> (r: Vec<u8>)
    requires
        start + len <= data@.len(),
    ensures
        r@ == data@.subrange(start as int, start + len),
{
    let n: usize = data.len();
    let mut buf: Vec<u8> = Vec::new();
    let mut i: usize = 0;
    while i < len
        invariant
            0 <= i <= len,
            start + len <= n,
            buf@.len() == i,
            forall|j: int| 0 <= j < i ==> buf@[j] == data@[start + j],
        decreases len - i,
    {
        let b: u8 = data[start + i];
        buf.push(b);
        i += 1;
    }
    proof {
        assert(buf@ =~= data@.subrange(start as int, start + len));
    }
    buf
}

/// The decoded payload of file entry `f` in an archive of bytes `data` and
/// key `key`, whose payload region starts at absolute offset `base`.
///
/// The payload keystream is indexed by `f.data_size + i`, not by archive
/// offset. An uncompressed payload shorter than `data_size` fails with
/// `UnexpectedEof`; a compressed one takes as many of its `compressed_size`
/// bytes as the archive still holds and fails as malformed if they do not
/// decompress to exactly `data_size` bytes.
pub open spec fn spec_file_payload(data: Seq<u8>, key: Seq<u8>, base: u64, f: FileEntry) -> Result<
    Seq<u8>,
    Error,
> {
    let start = base + f.data_position;
    match f.compressed_data_size {
        None => if start + f.data_size <= data.len() {
            Ok(xor_seq(key, f.data_size as int, data.subrange(start, start + f.data_size)))
        } else {
            Err(Error::UnexpectedEof)
        },
        Some(c) => {
            let s0 = vstd::math::min(start, data.len() as int);
            let e0 = vstd::math::min(start + c, data.len() as int);
            let input = xor_seq(key, f.data_size as int, data.subrange(s0, e0));
            match spec_decompress(input, f.data_size) {
                Some(out) => Ok(out),
                None => Err(Error::DecompressionFailed),
            }
        },
    }
}

impl ArchiveReader {
    /// Get a reader over the decoded payload of a file entry.
    pub fn get_file_reader(&self, file_entry: &FileEntry) -> (r: Result<FileReader, Error>)
        ensures
            self.header_data is None ==> r == Err::<FileReader, Error>(Error::HeaderNotRead),
            self.header_data is Some && file_entry.spec_is_dir() ==> r == Err::<FileReader, Error>(
                Error::NotAFile,
            ),
            self.header_data matches Some(h) ==> !file_entry.spec_is_dir() ==> match spec_file_payload(
                self.data@,
                self.key@,
                h@.data_position,
                *file_entry,
            ) {
                Ok(bytes) => (r matches Ok(fr) && fr.data@ == bytes && fr.position == 0),
                Err(e) => r == Err::<FileReader, Error>(e),
            },
            r matches Ok(fr) ==> fr.data@.len() == file_entry.data_size && fr.position == 0,
    {
        let header_data = match &self.header_data {
            Some(h) => h,
            None => {
                return Err(Error::HeaderNotRead);
            },
        };
        if file_entry.is_dir() {
            return Err(Error::NotAFile);
        }
        let len_u64: u64 = self.data.len() as u64;
        match file_entry.compressed_data_size {
            None => {
                let start = match header_data.data_position.checked_add(file_entry.data_position) {
                    Some(v) => v,
                    None => {
                        return Err(Error::UnexpectedEof);
                    },
                };
                if start > len_u64 || file_entry.data_size > len_u64 - start {
                    return Err(Error::UnexpectedEof);
                }
                let mut buf = copy_range(
                    &self.data,
                    start as usize,
                    file_entry.data_size as usize,
                );
                key_xor(file_entry.data_size, self.key, &mut buf);
                Ok(FileReader::new(buf))
            },
            Some(compressed_size) => {
                let (s0, e0): (u64, u64) = match header_data.data_position.checked_add(
                    file_entry.data_position,
                ) {
                    Some(start) => {
                        let s0 = if start > len_u64 {
                            len_u64
                        } else {
                            start
                        };
                        let e0 = if compressed_size > len_u64 - s0 {
                            len_u64
                        } else {
                            s0 + compressed_size
                        };
                        (s0, e0)
                    },
                    None => (len_u64, len_u64),
                };
                let mut input = copy_range(&self.data, s0 as usize, (e0 - s0) as usize);
                key_xor(file_entry.data_size, self.key, &mut input);
                match decompress_file_data(&input, file_entry.data_size) {
                    Some(output) => Ok(FileReader::new(output)),
                    None => Err(Error::DecompressionFailed),
                }
            },
        }
    }
}

/// Law: a name-table entry that parses carries a valid checksum: the stored
/// parity equals the wrapping 16-bit sum of the upper-case name bytes, and
/// an empty entry stores parity zero.
pub proof fn lemma_name_parity(p: Seq<u8>, pos: int)
    requires
        spec_parse_name_entry(p, pos) is Ok,
    ensures
        ({
            let len = spec_u16_from_le_bytes(p.subrange(pos, pos + 2));
            let parity = spec_u16_from_le_bytes(p.subrange(pos + 2, pos + 4));
            &&& len > 0 ==> checksum16(p.subrange(pos + 4, pos + 4 + 4 * len)) == parity
            &&& len == 0 ==> parity == 0
        }),
{
}

/// Cross-table closure of parsed header tables: every `name_position` of a
/// file entry is a key of the name table; every directory-typed file
/// entry's `data_position` is a key of the directory table; every
/// non-sentinel `parent_directory_position` is a key of the directory
/// table; and every child offset `file_head_position + 64*k` with
/// `0 <= k < num_files` is a key of the file table.
pub open spec fn tables_closed(h: HeaderModel) -> bool {
    &&& forall|off: u64| #[trigger]
        h.files.contains_key(off) ==> h.names.contains_key(h.files[off].name_position)
    &&& forall|off: u64| #[trigger]
        h.files.contains_key(off) && h.files[off].spec_is_dir() ==> h.dirs.contains_key(
            h.files[off].data_position,
        )
    &&& forall|off: u64| #[trigger]
        h.dirs.contains_key(off) ==> match h.dirs[off].parent_directory_position {
            Some(parent) => h.dirs.contains_key(parent),
            None => true,
        }
    &&& forall|off: u64, k: int|
        #![trigger h.dirs.contains_key(off), h.dirs[off].file_head_position + 64 * k]
        h.dirs.contains_key(off) && 0 <= k < h.dirs[off].num_files ==> {
            let key = h.dirs[off].file_head_position + 64 * k;
            key <= u64::MAX && h.files.contains_key(key as u64)
        }
}

/// Law: a payload that decodes successfully has exactly the length the
/// file entry declares, for the uncompressed and the compressed path alike.
pub proof fn lemma_payload_length(data: Seq<u8>, key: Seq<u8>, base: u64, f: FileEntry)
    requires
        spec_file_payload(data, key, base, f) is Ok,
    ensures
        spec_file_payload(data, key, base, f).unwrap().len() == f.data_size,
{
}

} // verus!
