use wolf_rpg_data::decompress_file_data;

/// Build a compressed payload: `dest_size`, `src_size`, `key_code`, body.
fn compressed(dest_size: u32, key_code: u8, body: &[u8]) -> Vec<u8> {
    let mut out = Vec::new();
    out.extend_from_slice(&dest_size.to_le_bytes());
    let src_size = (9 + body.len()) as u32;
    out.extend_from_slice(&src_size.to_le_bytes());
    out.push(key_code);
    out.extend_from_slice(body);
    out
}

#[test]
fn decompress_back_reference_run() {
    // three literal 'A's, one back-reference of length 12 at distance 1,
    // then one more literal: sixteen 'A's in all
    let body = [0x41, 0x41, 0x41, 0x00, 0x41, 0x00, 0x41];
    let input = compressed(16, 0x00, &body);
    let out = decompress_file_data(&input, 16).expect("valid payload");
    assert_eq!(out, vec![0x41u8; 16]);
}

#[test]
fn decompress_literals_only() {
    let body = [1, 2, 3, 4, 5];
    let input = compressed(5, 0xFF, &body);
    let out = decompress_file_data(&input, 5).expect("valid payload");
    assert_eq!(out, vec![1, 2, 3, 4, 5]);
}

#[test]
fn decompress_escaped_key_code() {
    // the key code twice is a literal key code
    let body = [0x07, 0x07, 0x01];
    let input = compressed(2, 0x07, &body);
    let out = decompress_file_data(&input, 2).expect("valid payload");
    assert_eq!(out, vec![0x07, 0x01]);
}

#[test]
fn decompress_extended_run_length() {
    // code with bit 2 set takes an extra run-length byte:
    // stored run = 1 | (1 << 5) = 33, so the copy is 37 bytes long
    let mut body = vec![0x09u8];
    body.push(0x00);
    // code = 0b0000_1100: run bits 1, extension bit, distance width 1
    body.push(0x0D);
    body.push(0x01);
    body.push(0x00);
    let input = compressed(38, 0x00, &body);
    let out = decompress_file_data(&input, 38).expect("valid payload");
    assert_eq!(out, vec![0x09u8; 38]);
}

#[test]
fn decompress_two_byte_distance() {
    // 300 literals, then a 4-byte copy from distance 300 (stored 299 LE)
    let mut body: Vec<u8> = (0..300).map(|i| (i % 250 + 1) as u8).collect();
    body.push(0x00);
    body.push(0x02); // code 1: run 0 (+4), distance width 2
    body.extend_from_slice(&299u16.to_le_bytes());
    let input = compressed(304, 0x00, &body);
    let out = decompress_file_data(&input, 304).expect("valid payload");
    assert_eq!(out.len(), 304);
    assert_eq!(&out[300..], &out[..4]);
}

#[test]
fn decompress_rejects_short_input() {
    let input = vec![1, 2, 3];
    assert!(decompress_file_data(&input, 0).is_none());
}

#[test]
fn decompress_rejects_wrong_dest_size() {
    let input = compressed(5, 0xFF, &[1, 2, 3, 4, 5]);
    assert!(decompress_file_data(&input, 6).is_none());
}

#[test]
fn decompress_rejects_wrong_src_size() {
    let mut input = compressed(5, 0xFF, &[1, 2, 3, 4, 5]);
    input[4] = input[4].wrapping_add(1);
    assert!(decompress_file_data(&input, 5).is_none());
}

#[test]
fn decompress_rejects_distance_width_three() {
    // code = 0b0000_0011: distance width field 3 is invalid
    let body = [0x01, 0x00, 0x04, 0x01];
    let input = compressed(5, 0x00, &body);
    assert!(decompress_file_data(&input, 5).is_none());
}

#[test]
fn decompress_rejects_distance_before_start() {
    // back-reference at distance 2 with only one byte produced
    let body = [0x41, 0x00, 0x41, 0x01];
    let input = compressed(13, 0x00, &body);
    assert!(decompress_file_data(&input, 13).is_none());
}

#[test]
fn decompress_rejects_truncated_back_reference() {
    // the key code at the very end with no code byte after it
    let body = [0x41, 0x00];
    let input = compressed(2, 0x00, &body);
    assert!(decompress_file_data(&input, 2).is_none());
}

#[test]
fn decompress_rejects_output_length_mismatch() {
    // the body produces 5 bytes but the header declares 4
    let body = [1, 2, 3, 4, 5];
    let mut input = compressed(4, 0xFF, &body);
    // keep src_size consistent with the real input length
    let src = input.len() as u32;
    input[4..8].copy_from_slice(&src.to_le_bytes());
    assert!(decompress_file_data(&input, 4).is_none());
}
