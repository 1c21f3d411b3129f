//! The custom back-reference compression codec used for file payloads.
//!
//! A compressed payload is a 9-byte header (`dest_size` u32 LE, `src_size`
//! u32 LE, `key_code` u8) followed by a body of literals and
//! back-references. A byte other than `key_code` is a literal; `key_code`
//! twice is an escaped literal `key_code`; `key_code` followed by another
//! byte starts a back-reference into the bytes already produced.
use vstd::bytes::spec_u16_from_le_bytes;
use vstd::bytes::spec_u32_from_le_bytes;
use vstd::bytes::u16_from_le_bytes;
use vstd::bytes::u32_from_le_bytes;
use vstd::prelude::*;
use vstd::slice::slice_subrange;

verus! {

/// `out` extended by `n` bytes copied from distance `index` back, one byte
/// at a time, so that a copy longer than its distance overlaps itself as in
/// LZ77.
pub open spec fn spec_lz_copy(out: Seq<u8>, index: int, n: int) -> Seq<u8>
    recommends
        1 <= index <= out.len(),
        n >= 0,
    decreases n,
{
    if n <= 0 {
        out
    } else {
        spec_lz_copy(out.push(out[out.len() - index]), index, n - 1)
    }
}

/// Decode the body of a compressed payload onto the end of `out`, or `None`
/// when the input is malformed: a truncated back-reference, a distance
/// width of 3, or a distance reaching before the start of the output.
pub open spec fn spec_decompress_body(input: Seq<u8>, key_code: u8, out: Seq<u8>) -> Option<
    Seq<u8>,
>
    decreases input.len(),
{
    if input.len() == 0 {
        Some(out)
    } else if input[0] != key_code {
        spec_decompress_body(input.skip(1), key_code, out.push(input[0]))
    } else if input.len() < 2 {
        None
    } else if input[1] == key_code {
        spec_decompress_body(input.skip(2), key_code, out.push(key_code))
    } else {
        let code0 = input[1] as u16;
        let code = if code0 > key_code as u16 {
            (code0 - 1) as u16
        } else {
            code0
        };
        let has_ext = code & 4 != 0;
        if has_ext && input.len() < 3 {
            None
        } else {
            let hdr: int = if has_ext {
                3
            } else {
                2
            };
            let run0: u16 = if has_ext {
                (code >> 3) | ((input[2] as u16) << 5)
            } else {
                code >> 3
            };
            let run_len = (run0 + 4) as u16;
            let index_size = code & 3;
            if index_size == 3 {
                None
            } else {
                let isz: int = index_size as int + 1;
                if input.len() < hdr + isz {
                    None
                } else {
                    let stored: u32 = if index_size == 0 {
                        input[hdr] as u32
                    } else if index_size == 1 {
                        spec_u16_from_le_bytes(input.subrange(hdr, hdr + 2)) as u32
                    } else {
                        spec_u16_from_le_bytes(input.subrange(hdr, hdr + 2)) as u32 | ((input[hdr
                            + 2] as u32) << 16)
                    };
                    let index = (stored + 1) as u32;
                    if index > out.len() {
                        None
                    } else {
                        spec_decompress_body(
                            input.skip(hdr + isz),
                            key_code,
                            spec_lz_copy(out, index as int, run_len as int),
                        )
                    }
                }
            }
        }
    }
}

/// Decode a whole compressed payload of declared uncompressed length
/// `size`, or `None` when the header or the body is malformed or the body
/// does not produce exactly `dest_size` bytes.
pub open spec fn spec_decompress(input: Seq<u8>, size: u64) -> Option<Seq<u8>> {
    if input.len() < 9 {
        None
    } else {
        let dest_size = spec_u32_from_le_bytes(input.subrange(0, 4));
        let src_size = spec_u32_from_le_bytes(input.subrange(4, 8));
        let key_code = input[8];
        if dest_size != size {
            None
        } else if input.len() > u32::MAX || src_size != input.len() {
            None
        } else {
            match spec_decompress_body(input.skip(9), key_code, Seq::<u8>::empty()) {
                Some(out) => if out.len() == dest_size {
                    Some(out)
                } else {
                    None
                },
                None => None,
            }
        }
    }
}

/// Decompress a file payload whose declared uncompressed length is `size`.
///
/// Returns `None` on any malformed input instead of producing wrong bytes.
#[verifier::loop_isolation(false)]
pub fn decompress_file_data(input: &Vec<u8>, size: u64) -> (r: Option<Vec<u8>>)
    ensures
        match r {
            Some(out) => spec_decompress(input@, size) == Some(out@),
            None => spec_decompress(input@, size) is None,
        },
{
    let n: usize = input.len();
    if n < 9 {
        return None;
    }
    let dest_size: u32 = u32_from_le_bytes(slice_subrange(input.as_slice(), 0, 4));
    let src_size: u32 = u32_from_le_bytes(slice_subrange(input.as_slice(), 4, 8));
    let key_code: u8 = input[8];
    if dest_size as u64 != size {
        return None;
    }
    if n > u32::MAX as usize {
        return None;
    }
    if src_size as usize != n {
        return None;
    }
    let ghost gin: Seq<u8> = input@;
    let mut out: Vec<u8> = Vec::new();
    let mut i: usize = 9;
    while i < n
        invariant
            input@ == gin,
            n == gin.len(),
            9 <= i <= n,
            spec_decompress_body(gin.skip(9), key_code, Seq::<u8>::empty())
                == spec_decompress_body(gin.skip(i as int), key_code, out@),
        decreases n - i,
    {
        let b: u8 = input[i];
        if b != key_code {
            proof {
                assert(gin.skip(i as int).skip(1) =~= gin.skip(i as int + 1));
            }
            out.push(b);
            i += 1;
            continue ;
        }
        if n - i < 2 {
            proof {
                assert(spec_decompress_body(gin.skip(i as int), key_code, out@) is None);
            }
            return None;
        }
        let b2: u8 = input[i + 1];
        if b2 == key_code {
            proof {
                assert(gin.skip(i as int).skip(2) =~= gin.skip(i as int + 2));
            }
            out.push(b2);
            i += 2;
            continue ;
        }
        // back-reference
        let mut code: u16 = b2 as u16;
        if code > key_code as u16 {
            code = code - 1;
        }
        assert(code <= 255);
        let mut j: usize = i + 2;
        let mut run0: u16 = code >> 3;
        if code & 4 != 0 {
            if n - j < 1 {
                proof {
                    assert(spec_decompress_body(gin.skip(i as int), key_code, out@) is None);
                }
                return None;
            }
            let ext: u8 = input[j];
            assert((code >> 3) | ((ext as u16) << 5) <= 8191) by (bit_vector)
                requires
                    code <= 255,
            ;
            run0 = run0 | ((ext as u16) << 5);
            j += 1;
        } else {
            assert(code >> 3 <= 31) by (bit_vector)
                requires
                    code <= 255,
            ;
        }
        let run_len: u16 = run0 + 4;
        let index_size: u16 = code & 3;
        if index_size == 3 {
            proof {
                assert(spec_decompress_body(gin.skip(i as int), key_code, out@) is None);
            }
            return None;
        }
        assert(index_size < 3) by (bit_vector)
            requires
                index_size == code & 3 && index_size != 3,
        ;
        let isz: usize = index_size as usize + 1;
        if n - j < isz {
            proof {
                assert(spec_decompress_body(gin.skip(i as int), key_code, out@) is None);
            }
            return None;
        }
        let ghost hdr: int = j - i;
        let stored: u32 = if index_size == 0 {
            input[j] as u32
        } else if index_size == 1 {
            proof {
                assert(gin.skip(i as int).subrange(hdr, hdr + 2) =~= gin.subrange(
                    j as int,
                    j as int + 2,
                ));
            }
            u16_from_le_bytes(slice_subrange(input.as_slice(), j, j + 2)) as u32
        } else {
            proof {
                assert(gin.skip(i as int).subrange(hdr, hdr + 2) =~= gin.subrange(
                    j as int,
                    j as int + 2,
                ));
            }
            let low: u32 = u16_from_le_bytes(slice_subrange(input.as_slice(), j, j + 2)) as u32;
            let high: u32 = input[j + 2] as u32;
            assert(low | (high << 16) <= 0xFFFFFF) by (bit_vector)
                requires
                    low <= 0xFFFF && high <= 0xFF,
            ;
            low | (high << 16)
        };
        let index: u32 = stored + 1;
        if index as usize > out.len() {
            proof {
                assert(spec_decompress_body(gin.skip(i as int), key_code, out@) is None);
            }
            return None;
        }
        // copy `run_len` bytes from `index` back, byte by byte
        let ghost out0: Seq<u8> = out@;
        let mut c: u16 = 0;
        while c < run_len
            invariant
                1 <= index as int <= out@.len(),
                0 <= c <= run_len,
                out@.len() == out0.len() + c,
                spec_lz_copy(out0, index as int, run_len as int) == spec_lz_copy(
                    out@,
                    index as int,
                    run_len as int - c,
                ),
            decreases run_len - c,
        {
            let src: usize = out.len() - index as usize;
            let byte: u8 = out[src];
            out.push(byte);
            c += 1;
        }
        proof {
            assert(out@ == spec_lz_copy(out0, index as int, run_len as int));
            assert(gin.skip(i as int).skip(hdr + isz) =~= gin.skip(j as int + isz));
            assert(spec_decompress_body(gin.skip(i as int), key_code, out0)
                == spec_decompress_body(gin.skip(j as int + isz as int), key_code, out@));
        }
        i = j + isz;
    }
    proof {
        assert(gin.skip(n as int).len() == 0);
        assert(spec_decompress_body(gin.skip(9), key_code, Seq::<u8>::empty()) == Some(out@));
    }
    if out.len() as u64 == dest_size as u64 {
        Some(out)
    } else {
        None
    }
}

} // verus!
