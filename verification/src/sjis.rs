//! Shift-JIS (code page 932) decoding of name-table entries.
//!
//! The decode itself is done by an outside crate; this module strips the
//! trailing NUL padding from the decoded text and rebuilds a `String`.
use vstd::prelude::*;

verus! {

/// What Shift-JIS decoding returns for the given bytes: the decoded
/// characters, and whether the input was malformed.
pub uninterp spec fn sjis_decoded(bytes: Seq<u8>) -> (Seq<char>, bool);

/// Relies on `encoding_rs::SHIFT_JIS.decode_without_bom_handling`: the
/// decoded text and the malformed flag are functions of the input bytes
/// alone. The decoder panics when the size of its backing buffer overflows
/// `usize`; the bound on the input length keeps that computation far from
/// overflowing on any machine.
#[verifier::external_body]
fn decode_shift_jis(bytes: &[u8]) -> (r: (Vec<char>, bool))
    requires
        bytes@.len() <= 0x1000_0000,
    ensures
        (r.0@, r.1) == sjis_decoded(bytes@),
{
    let (text, is_malformed) = encoding_rs::SHIFT_JIS.decode_without_bom_handling(bytes);
    (text.chars().collect(), is_malformed)
}

/// Relies on `String::push`: appends the character to the end of the string.
#[verifier::external_body]
fn push_char(s: &mut String, c: char)
    ensures
        final(s)@ == old(s)@.push(c),
{
    s.push(c);
}

/// `s` with every trailing NUL character removed.
pub open spec fn strip_trailing_nuls(s: Seq<char>) -> Seq<char>
    decreases s.len(),
{
    if s.len() > 0 && s.last() == '\0' {
        strip_trailing_nuls(s.drop_last())
    } else {
        s
    }
}

/// Remove every trailing NUL character.
fn strip_nuls(chars: &mut Vec<char>)
    ensures
        final(chars)@ == strip_trailing_nuls(old(chars)@),
{
    while chars.len() > 0 && chars[chars.len() - 1] == '\0'
        invariant
            strip_trailing_nuls(chars@) == strip_trailing_nuls(old(chars)@),
        decreases chars@.len(),
    {
        chars.pop();
    }
}

/// Rebuild a `String` from decoded characters.
fn chars_to_string(chars: &Vec<char>) -> (r: String)
    ensures
        r@ == chars@,
{
    let mut s = String::new();
    let mut i: usize = 0;
    while i < chars.len()
        invariant
            0 <= i <= chars@.len(),
            s@ == chars@.take(i as int),
        decreases chars@.len() - i,
    {
        push_char(&mut s, chars[i]);
        proof {
            assert(chars@.take(i + 1 as int) =~= chars@.take(i as int).push(chars@[i as int]));
        }
        i += 1;
    }
    proof {
        assert(chars@.take(chars@.len() as int) =~= chars@);
    }
    s
}

/// The name a raw Shift-JIS name-table field decodes to: the decoded text
/// with the trailing NUL padding stripped, or `None` when the bytes are
/// malformed Shift-JIS.
pub open spec fn spec_decode_file_name(bytes: Seq<u8>) -> Option<Seq<char>> {
    if sjis_decoded(bytes).1 {
        None
    } else {
        Some(strip_trailing_nuls(sjis_decoded(bytes).0))
    }
}

/// Decode a raw Shift-JIS name-table field and strip the NUL padding.
pub fn decode_file_name(bytes: &Vec<u8>) -> (r: Option<String>)
    requires
        bytes@.len() <= 0x1000_0000,
    ensures
        match r {
            Some(s) => spec_decode_file_name(bytes@) == Some(s@),
            None => spec_decode_file_name(bytes@) is None,
        },
{
    let (mut chars, is_malformed) = decode_shift_jis(bytes.as_slice());
    if is_malformed {
        None
    } else {
        strip_nuls(&mut chars);
        Some(chars_to_string(&chars))
    }
}

} // verus!
