use wolf_rpg_data::create_key;
use wolf_rpg_data::key::DEFAULT_KEY_STRING;
use wolf_rpg_data::ArchiveReader;
use wolf_rpg_data::Error;
use wolf_rpg_data::FileEntry;
use wolf_rpg_data::WalkDirIter;

fn derived_key() -> [u8; 12] {
    create_key(DEFAULT_KEY_STRING)
}

/// XOR `buf` against the keystream starting at position `start`.
fn xor_pad(start: u64, buf: &mut [u8]) {
    let key = derived_key();
    for (i, b) in buf.iter_mut().enumerate() {
        *b ^= key[((start + i as u64) % 12) as usize];
    }
}

/// One name-table entry: length in 4-byte units, parity of the upper-case
/// bytes, the upper-case name, the original name, both NUL-padded.
fn name_entry(name: &str) -> Vec<u8> {
    if name.is_empty() {
        return vec![0, 0, 0, 0];
    }
    let len4 = (name.len() + 3) / 4;
    let mut upper = name.to_uppercase().into_bytes();
    upper.resize(len4 * 4, 0);
    let mut orig = name.as_bytes().to_vec();
    orig.resize(len4 * 4, 0);
    let parity = upper.iter().fold(0u16, |a, b| a.wrapping_add(*b as u16));
    let mut out = Vec::new();
    out.extend_from_slice(&(len4 as u16).to_le_bytes());
    out.extend_from_slice(&parity.to_le_bytes());
    out.extend_from_slice(&upper);
    out.extend_from_slice(&orig);
    out
}

/// One 64-byte file entry.
fn file_entry_bytes(
    name_pos: u64,
    is_dir: bool,
    data_position: u64,
    data_size: u64,
    compressed: Option<u64>,
) -> Vec<u8> {
    let mut out = Vec::new();
    out.extend_from_slice(&name_pos.to_le_bytes());
    let attrs: u64 = if is_dir { 0x10 } else { 0x20 };
    out.extend_from_slice(&attrs.to_le_bytes());
    out.extend_from_slice(&0u64.to_le_bytes());
    out.extend_from_slice(&0u64.to_le_bytes());
    out.extend_from_slice(&0u64.to_le_bytes());
    out.extend_from_slice(&data_position.to_le_bytes());
    out.extend_from_slice(&data_size.to_le_bytes());
    out.extend_from_slice(&compressed.unwrap_or(u64::MAX).to_le_bytes());
    out
}

/// One 32-byte directory entry.
fn dir_entry_bytes(
    directory_position: u64,
    parent: Option<u64>,
    num_files: u64,
    file_head_position: u64,
) -> Vec<u8> {
    let mut out = Vec::new();
    out.extend_from_slice(&directory_position.to_le_bytes());
    out.extend_from_slice(&parent.unwrap_or(u64::MAX).to_le_bytes());
    out.extend_from_slice(&num_files.to_le_bytes());
    out.extend_from_slice(&file_head_position.to_le_bytes());
    out
}

/// Assemble and encrypt a whole archive. `payloads` are appended at the
/// data position; each must already be enciphered at its own keystream
/// offset (`data_size + i`).
fn build_archive(names: &[&str], files: &[Vec<u8>], dirs: &[Vec<u8>], payloads: &[Vec<u8>]) -> Vec<u8> {
    let mut name_bytes = Vec::new();
    for n in names {
        name_bytes.extend_from_slice(&name_entry(n));
    }
    let ftp = name_bytes.len() as u64;
    let dtp = ftp + 64 * files.len() as u64;
    let fhs = dtp + 32 * dirs.len() as u64;
    let fntp: u64 = 48;
    let data_position = fntp + fhs;

    let mut plain = Vec::new();
    plain.extend_from_slice(b"DX");
    plain.extend_from_slice(&6u16.to_le_bytes());
    plain.extend_from_slice(&(fhs as u32).to_le_bytes());
    plain.extend_from_slice(&data_position.to_le_bytes());
    plain.extend_from_slice(&fntp.to_le_bytes());
    plain.extend_from_slice(&ftp.to_le_bytes());
    plain.extend_from_slice(&dtp.to_le_bytes());
    plain.extend_from_slice(&932u64.to_le_bytes());
    plain.extend_from_slice(&name_bytes);
    for f in files {
        plain.extend_from_slice(f);
    }
    for d in dirs {
        plain.extend_from_slice(d);
    }
    assert_eq!(plain.len() as u64, data_position);
    xor_pad(0, &mut plain);
    for p in payloads {
        plain.extend_from_slice(p);
    }
    plain
}

/// Encipher a file payload at its keystream offset `data_size + i`.
fn encrypt_payload(data_size: u64, payload: &[u8]) -> Vec<u8> {
    let mut out = payload.to_vec();
    xor_pad(data_size, &mut out);
    out
}

/// The smallest valid archive: an empty root directory.
fn minimal_archive() -> Vec<u8> {
    build_archive(
        &[""],
        &[file_entry_bytes(0, true, 0, 0, None)],
        &[dir_entry_bytes(0, None, 0, 0)],
        &[],
    )
}

/// An archive whose root holds one uncompressed file `hello.txt`.
fn hello_archive() -> Vec<u8> {
    let content = b"Hello, world!\n";
    build_archive(
        &["", "hello.txt"],
        &[
            file_entry_bytes(0, true, 0, 0, None),
            file_entry_bytes(4, false, 0, content.len() as u64, None),
        ],
        &[dir_entry_bytes(0, None, 1, 64)],
        &[encrypt_payload(content.len() as u64, content)],
    )
}

/// An archive whose root holds one compressed file of sixteen `A`s.
fn compressed_archive() -> Vec<u8> {
    // three literal 'A's, a back-reference of length 12 at distance 1, one
    // more literal: sixteen 'A's
    let mut payload = Vec::new();
    payload.extend_from_slice(&16u32.to_le_bytes());
    payload.extend_from_slice(&16u32.to_le_bytes());
    payload.push(0x00);
    payload.extend_from_slice(&[0x41, 0x41, 0x41, 0x00, 0x41, 0x00, 0x41]);
    assert_eq!(payload.len(), 16);
    build_archive(
        &["", "a.bin"],
        &[
            file_entry_bytes(0, true, 0, 0, None),
            file_entry_bytes(4, false, 0, 16, Some(payload.len() as u64)),
        ],
        &[dir_entry_bytes(0, None, 1, 64)],
        &[encrypt_payload(16, &payload)],
    )
}

/// root/ contains a/ and b/; a/ contains x.bin and y.bin (both empty).
fn nested_archive() -> Vec<u8> {
    // name offsets: "" 0, "a" 4, "b" 16, "x.bin" 28, "y.bin" 48
    build_archive(
        &["", "a", "b", "x.bin", "y.bin"],
        &[
            file_entry_bytes(0, true, 0, 0, None),    // 0: root
            file_entry_bytes(4, true, 32, 0, None),   // 64: a
            file_entry_bytes(16, true, 64, 0, None),  // 128: b
            file_entry_bytes(28, false, 0, 0, None),  // 192: x.bin
            file_entry_bytes(48, false, 0, 0, None),  // 256: y.bin
        ],
        &[
            dir_entry_bytes(0, None, 2, 64),      // 0: root, children a and b
            dir_entry_bytes(64, Some(0), 2, 192), // 32: a, children x.bin and y.bin
            dir_entry_bytes(128, Some(0), 0, 0),  // 64: b
        ],
        &[],
    )
}

fn read_all(reader: &ArchiveReader, f: &FileEntry) -> Vec<u8> {
    let mut fr = reader.get_file_reader(f).expect("open file");
    fr.read_to_end()
}

#[test]
fn minimum_valid_archive() {
    let mut reader = ArchiveReader::new(minimal_archive());
    reader.read_header().expect("header parses");
    let root = *reader.get_root_dir().expect("header read").expect("root exists");
    assert_eq!(root.num_files(), 0);

    let mut walk = reader.walk_dir(&root).expect("walk starts");
    let entry = walk.next(&reader).expect("one item").expect("no error");
    assert!(entry.file().is_dir());
    assert!(entry.path_components().is_empty());
    assert!(walk.next(&reader).is_none());
}

#[test]
fn single_uncompressed_file() {
    let mut reader = ArchiveReader::new(hello_archive());
    reader.read_header().expect("header parses");
    let root = *reader.get_root_dir().unwrap().unwrap();
    assert_eq!(root.num_files(), 1);
    let file = *reader.get_dir_file(&root, 0).unwrap().expect("first child");
    assert!(file.is_file());
    assert!(!file.is_compressed());
    assert_eq!(file.size(), 14);
    assert_eq!(reader.get_file_name(&file).unwrap().as_str(), "hello.txt");
    assert_eq!(read_all(&reader, &file), b"Hello, world!\n".to_vec());
}

#[test]
fn single_compressed_file() {
    let mut reader = ArchiveReader::new(compressed_archive());
    reader.read_header().expect("header parses");
    let root = *reader.get_root_dir().unwrap().unwrap();
    let file = *reader.get_dir_file(&root, 0).unwrap().expect("first child");
    assert!(file.is_compressed());
    assert_eq!(file.compressed_size(), Some(16));
    assert_eq!(file.size(), 16);
    assert_eq!(read_all(&reader, &file), vec![0x41u8; 16]);
}

#[test]
fn nested_directories_walk_order() {
    let mut reader = ArchiveReader::new(nested_archive());
    reader.read_header().expect("header parses");
    let root = *reader.get_root_dir().unwrap().unwrap();

    let mut walk = reader.walk_dir(&root).expect("walk starts");
    let mut paths: Vec<Vec<String>> = Vec::new();
    while let Some(entry) = walk.next(&reader) {
        let entry = entry.expect("no error");
        paths.push(entry.path_components().clone());
    }
    let expected: Vec<Vec<String>> = vec![
        vec![],
        vec!["a".to_string()],
        vec!["a".to_string(), "x.bin".to_string()],
        vec!["a".to_string(), "y.bin".to_string()],
        vec!["b".to_string()],
    ];
    assert_eq!(paths, expected);
}

#[test]
fn walk_matches_nth_child_order() {
    let mut reader = ArchiveReader::new(nested_archive());
    reader.read_header().expect("header parses");
    let root = *reader.get_root_dir().unwrap().unwrap();

    // the children of root in nth_child order
    let mut child_names: Vec<String> = Vec::new();
    let mut i = 0;
    while let Some(f) = reader.get_dir_file(&root, i).unwrap() {
        child_names.push(reader.get_file_name(f).unwrap().clone());
        i += 1;
    }
    assert_eq!(child_names, vec!["a".to_string(), "b".to_string()]);

    // the walk visits root's children in the same order
    let mut walk = reader.walk_dir(&root).expect("walk starts");
    let mut walked: Vec<String> = Vec::new();
    while let Some(entry) = walk.next(&reader) {
        let entry = entry.unwrap();
        if entry.path_components().len() == 1 {
            walked.push(entry.path_components()[0].clone());
        }
    }
    assert_eq!(walked, child_names);
}

#[test]
fn round_trip_byte_count() {
    for data in [hello_archive(), compressed_archive(), nested_archive()] {
        let mut reader = ArchiveReader::new(data);
        reader.read_header().expect("header parses");
        let root = *reader.get_root_dir().unwrap().unwrap();
        let mut walk = reader.walk_dir(&root).expect("walk starts");
        let mut expected: u64 = 0;
        let mut produced: u64 = 0;
        while let Some(entry) = walk.next(&reader) {
            let entry = entry.unwrap();
            let file = *entry.file();
            if file.is_file() {
                expected += file.size();
                produced += read_all(&reader, &file).len() as u64;
            }
        }
        assert_eq!(produced, expected);
    }
}

#[test]
fn corrupt_version_detected() {
    let mut data = hello_archive();
    data[2] ^= 0xFF;
    let mut reader = ArchiveReader::new(data);
    let err = reader.read_header().expect_err("corrupt header");
    assert!(matches!(
        err,
        Error::InvalidMagic { .. } | Error::InvalidVersion { .. }
    ));
}

#[test]
fn corrupt_magic_detected() {
    let mut data = hello_archive();
    data[0] ^= 0xFF;
    let mut reader = ArchiveReader::new(data);
    let err = reader.read_header().expect_err("corrupt header");
    assert!(matches!(err, Error::InvalidMagic { .. }));
}

#[test]
fn corrupt_name_parity_detected() {
    let mut data = hello_archive();
    // the parity field of the root's empty name entry, at offset 2 of the
    // name table, which starts at absolute offset 48
    data[50] ^= 0xFF;
    let mut reader = ArchiveReader::new(data);
    let err = reader.read_header().expect_err("corrupt name entry");
    assert_eq!(err, Error::InvalidFileNameParity);
}

#[test]
fn truncated_archive_detected() {
    let mut data = hello_archive();
    data.truncate(40);
    let mut reader = ArchiveReader::new(data);
    let err = reader.read_header().expect_err("truncated header");
    assert_eq!(err, Error::UnexpectedEof);
}

#[test]
fn unknown_code_page_detected() {
    let mut data = hello_archive();
    // re-encipher the code-page field (absolute offset 40) with 933
    let mut patch = 933u64.to_le_bytes().to_vec();
    xor_pad(40, &mut patch);
    data[40..48].copy_from_slice(&patch);
    let mut reader = ArchiveReader::new(data);
    let err = reader.read_header().expect_err("unknown code page");
    assert_eq!(err, Error::UnknownCodePage { code_page: 933 });
}

#[test]
fn header_lifecycle_errors() {
    let mut reader = ArchiveReader::new(minimal_archive());
    assert_eq!(
        reader.get_root_dir().expect_err("no header yet"),
        Error::HeaderNotRead
    );
    reader.read_header().expect("header parses");
    assert_eq!(
        reader.read_header().expect_err("second read"),
        Error::HeaderAlreadyRead
    );
}

#[test]
fn navigation_errors() {
    let mut reader = ArchiveReader::new(hello_archive());
    reader.read_header().expect("header parses");
    let root = *reader.get_root_dir().unwrap().unwrap();
    let file = *reader.get_dir_file(&root, 0).unwrap().unwrap();

    // a plain file is not a directory
    assert_eq!(
        reader.get_dir_from_file(&file).expect_err("not a dir"),
        Error::NotADir
    );
    // a directory's file entry cannot be opened as a file
    let root_file = *reader.get_file_from_dir(&root).unwrap();
    assert_eq!(
        reader.get_file_reader(&root_file).expect_err("not a file"),
        Error::NotAFile
    );
    // the root has no parent
    assert!(reader.get_parent_dir(&root).unwrap().is_none());
    // past the last child
    assert!(reader.get_dir_file(&root, 1).unwrap().is_none());
    // a dangling name offset
    let mut bad = file;
    bad.name_position = 999;
    assert_eq!(
        reader.get_file_name(&bad).expect_err("dangling name"),
        Error::InvalidFileNamePosition
    );
    // a dangling directory offset
    let mut bad_dir = root_file;
    bad_dir.data_position = 999;
    assert_eq!(
        reader.get_dir_from_file(&bad_dir).expect_err("dangling dir"),
        Error::InvalidDirectoryPosition
    );
}

#[test]
fn parent_of_child_is_root() {
    let mut reader = ArchiveReader::new(nested_archive());
    reader.read_header().expect("header parses");
    let root = *reader.get_root_dir().unwrap().unwrap();
    let a_file = *reader.get_dir_file(&root, 0).unwrap().unwrap();
    let a_dir = *reader.get_dir_from_file(&a_file).unwrap();
    let parent = *reader.get_parent_dir(&a_dir).unwrap().expect("a has a parent");
    assert_eq!(parent.directory_position, root.directory_position);
    assert_eq!(parent.num_files, root.num_files);
}

#[test]
fn truncated_uncompressed_payload_fails_open() {
    let mut data = hello_archive();
    data.truncate(data.len() - 1);
    let mut reader = ArchiveReader::new(data);
    reader.read_header().expect("header still parses");
    let root = *reader.get_root_dir().unwrap().unwrap();
    let file = *reader.get_dir_file(&root, 0).unwrap().unwrap();
    assert_eq!(
        reader.get_file_reader(&file).expect_err("payload short"),
        Error::UnexpectedEof
    );
}

#[test]
fn corrupt_compressed_payload_fails_open() {
    let mut data = compressed_archive();
    // corrupt the src_size field of the compression header
    let n = data.len();
    data[n - 16 + 4] ^= 0xFF;
    let mut reader = ArchiveReader::new(data);
    reader.read_header().expect("header still parses");
    let root = *reader.get_root_dir().unwrap().unwrap();
    let file = *reader.get_dir_file(&root, 0).unwrap().unwrap();
    assert_eq!(
        reader.get_file_reader(&file).expect_err("payload corrupt"),
        Error::DecompressionFailed
    );
}

#[test]
fn file_reader_reads_in_chunks() {
    let reader = {
        let mut r = ArchiveReader::new(hello_archive());
        r.read_header().expect("header parses");
        r
    };
    let root = *reader.get_root_dir().unwrap().unwrap();
    let file = *reader.get_dir_file(&root, 0).unwrap().unwrap();
    let mut fr = reader.get_file_reader(&file).unwrap();
    assert_eq!(fr.len(), 14);
    assert_eq!(fr.remaining(), 14);
    assert_eq!(fr.read(5), b"Hello".to_vec());
    assert_eq!(fr.remaining(), 9);
    assert_eq!(fr.read(100), b", world!\n".to_vec());
    assert_eq!(fr.remaining(), 0);
    assert_eq!(fr.read(1), Vec::<u8>::new());
}

/// One name-table entry from raw Shift-JIS bytes.
fn name_entry_raw(upper: &[u8], orig: &[u8]) -> Vec<u8> {
    let len4 = (upper.len() + 3) / 4;
    let mut u = upper.to_vec();
    u.resize(len4 * 4, 0);
    let mut o = orig.to_vec();
    o.resize(len4 * 4, 0);
    let parity = u.iter().fold(0u16, |a, b| a.wrapping_add(*b as u16));
    let mut out = Vec::new();
    out.extend_from_slice(&(len4 as u16).to_le_bytes());
    out.extend_from_slice(&parity.to_le_bytes());
    out.extend_from_slice(&u);
    out.extend_from_slice(&o);
    out
}

/// An archive with one empty file whose name needs real Shift-JIS decoding.
fn shift_jis_archive(name_bytes: &[u8]) -> Vec<u8> {
    let mut names = name_entry("");
    names.extend_from_slice(&name_entry_raw(name_bytes, name_bytes));
    let files = [
        file_entry_bytes(0, true, 0, 0, None),
        file_entry_bytes(4, false, 0, 0, None),
    ];
    let dirs = [dir_entry_bytes(0, None, 1, 64)];

    // assemble by hand since the names are raw bytes
    let ftp = names.len() as u64;
    let dtp = ftp + 64 * files.len() as u64;
    let fhs = dtp + 32 * dirs.len() as u64;
    let data_position = 48 + fhs;
    let mut plain = Vec::new();
    plain.extend_from_slice(b"DX");
    plain.extend_from_slice(&6u16.to_le_bytes());
    plain.extend_from_slice(&(fhs as u32).to_le_bytes());
    plain.extend_from_slice(&data_position.to_le_bytes());
    plain.extend_from_slice(&48u64.to_le_bytes());
    plain.extend_from_slice(&ftp.to_le_bytes());
    plain.extend_from_slice(&dtp.to_le_bytes());
    plain.extend_from_slice(&932u64.to_le_bytes());
    plain.extend_from_slice(&names);
    for f in &files {
        plain.extend_from_slice(f);
    }
    for d in &dirs {
        plain.extend_from_slice(d);
    }
    xor_pad(0, &mut plain);
    plain
}

#[test]
fn shift_jis_name_decoded() {
    // katakana "tesuto" in Shift-JIS
    let data = shift_jis_archive(&[0x83, 0x65, 0x83, 0x58, 0x83, 0x67]);
    let mut reader = ArchiveReader::new(data);
    reader.read_header().expect("header parses");
    let root = *reader.get_root_dir().unwrap().unwrap();
    let file = *reader.get_dir_file(&root, 0).unwrap().unwrap();
    let name = reader.get_file_name(&file).unwrap();
    assert_eq!(name.as_str(), "\u{30C6}\u{30B9}\u{30C8}");
}

#[test]
fn malformed_shift_jis_name_rejected() {
    // 0x82 opens a two-byte sequence; 0x39 is not a valid trail byte
    let data = shift_jis_archive(&[0x82, 0x39]);
    let mut reader = ArchiveReader::new(data);
    let err = reader.read_header().expect_err("malformed name");
    assert_eq!(err, Error::InvalidFileName);
}

#[test]
fn cross_table_references_resolve() {
    // every reference the nested archive's tables make can be followed
    let mut reader = ArchiveReader::new(nested_archive());
    reader.read_header().expect("header parses");
    let root = *reader.get_root_dir().unwrap().unwrap();

    let mut dirs = vec![root];
    let mut seen_files = 0;
    while let Some(dir) = dirs.pop() {
        // the directory's own file entry and name
        let own = *reader.get_file_from_dir(&dir).expect("own file entry");
        reader.get_file_name(&own).expect("own name resolves");
        // its parent, unless it is the root
        if dir.parent_directory_position.is_some() {
            reader.get_parent_dir(&dir).expect("parent resolves");
        }
        // every child offset is a file-table key with a name
        let mut i = 0;
        while let Some(child) = reader.get_dir_file(&dir, i).expect("child offset resolves") {
            reader.get_file_name(child).expect("child name resolves");
            seen_files += 1;
            let child = *child;
            if child.is_dir() {
                dirs.push(*reader.get_dir_from_file(&child).expect("child dir resolves"));
            }
            i += 1;
        }
    }
    assert_eq!(seen_files, 4);
}

#[test]
fn dangling_directory_file_references() {
    let mut reader = ArchiveReader::new(minimal_archive());
    reader.read_header().expect("header parses");
    let root = *reader.get_root_dir().unwrap().unwrap();

    // a directory record whose own offset is not in the file table
    let mut bad_dir = root;
    bad_dir.directory_position = 999;
    assert_eq!(
        reader.get_file_from_dir(&bad_dir).expect_err("dangling file offset"),
        Error::InvalidFilePosition
    );

    // a directory record whose child offset is not in the file table
    let mut bad_children = root;
    bad_children.num_files = 1;
    bad_children.file_head_position = 999;
    assert_eq!(
        reader.get_dir_file(&bad_children, 0).expect_err("dangling child"),
        Error::InvalidDirectoryFileIndex
    );
}

#[test]
fn walk_surfaces_dangling_directory() {
    let mut reader = ArchiveReader::new(minimal_archive());
    reader.read_header().expect("header parses");
    let root = *reader.get_root_dir().unwrap().unwrap();
    let mut root_file = *reader.get_file_from_dir(&root).unwrap();
    root_file.data_position = 999;

    let mut walk = WalkDirIter::new(root_file);
    let err = walk
        .next(&reader)
        .expect("one step")
        .expect_err("dangling directory offset");
    assert_eq!(err, Error::InvalidDirectoryPosition);
}
