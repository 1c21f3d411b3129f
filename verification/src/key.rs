//! The 12-byte XOR keystream: key derivation and buffer enciphering.
//!
//! Every byte of the archive is XORed against `key[(pos + i) % 12]`, where
//! `pos` is the cipher position of the first byte of the buffer.
use vstd::prelude::*;

verus! {

/// Length in bytes of the derived key and of the key string it comes from.
pub const KEY_LEN: usize = 12;

/// The key string every archive is enciphered with.
pub const DEFAULT_KEY_STRING: [u8; KEY_LEN] = [
    0x38, 0x50, 0x40, 0x28, 0x72, 0x4f, 0x21, 0x70, 0x3b, 0x73, 0x35, 0x38,
];

/// The byte-wise transforms that turn a 12-byte key string into the XOR key.
pub open spec fn spec_derive_key(s: Seq<u8>) -> Seq<u8>
    recommends
        s.len() == 12,
{
    seq![
        !s[0],
        (s[1] >> 4) | (s[1] << 4),
        s[2] ^ 0x8a,
        !((s[3] >> 4) | (s[3] << 4)),
        !s[4],
        s[5] ^ 0xac,
        !s[6],
        !((s[7] >> 3) | (s[7] << 5)),
        (s[8] >> 5) | (s[8] << 3),
        s[9] ^ 0x7f,
        ((s[10] >> 4) | (s[10] << 4)) ^ 0xd6,
        s[11] ^ 0xcc,
    ]
}

/// Create a key from a key string.
pub fn create_key(key_string: [u8; KEY_LEN]) -> (key: [u8; KEY_LEN])
    ensures
        key@ == spec_derive_key(key_string@),
{
    let key: [u8; KEY_LEN] = [
        !key_string[0],
        (key_string[1] >> 4) | (key_string[1] << 4),
        key_string[2] ^ 0x8a,
        !((key_string[3] >> 4) | (key_string[3] << 4)),
        !key_string[4],
        key_string[5] ^ 0xac,
        !key_string[6],
        !((key_string[7] >> 3) | (key_string[7] << 5)),
        (key_string[8] >> 5) | (key_string[8] << 3),
        key_string[9] ^ 0x7f,
        ((key_string[10] >> 4) | (key_string[10] << 4)) ^ 0xd6,
        key_string[11] ^ 0xcc,
    ];
    proof {
        assert(key@ =~= spec_derive_key(key_string@));
    }
    key
}

/// The buffer `b` XORed against the keystream starting at cipher position `pos`.
pub open spec fn xor_seq(key: Seq<u8>, pos: int, b: Seq<u8>) -> Seq<u8>
    recommends
        key.len() == 12,
        pos >= 0,
{
    Seq::new(b.len(), |i: int| b[i] ^ key[(pos + i) % 12])
}

/// XOR a buffer in place against the keystream starting at cipher position `position`.
pub fn key_xor(position: u64, key: [u8; KEY_LEN], buffer: &mut Vec<u8>)
    ensures
        final(buffer)@ == xor_seq(key@, position as int, old(buffer)@),
{
    let base: usize = (position % 12) as usize;
    let n: usize = buffer.len();
    let ghost orig: Seq<u8> = buffer@;
    let mut i: usize = 0;
    while i < n
        invariant
            n == orig.len(),
            buffer@.len() == n,
            base == position as int % 12,
            0 <= i <= n,
            forall|j: int| 0 <= j < i ==> buffer@[j] == orig[j] ^ key@[(position as int + j) % 12],
            forall|j: int| i <= j < n ==> buffer@[j] == orig[j],
        decreases n - i,
    {
        let k: usize = (base + i % 12) % 12;
        proof {
            let p = position as int;
            let j = i as int;
            vstd::arithmetic::div_mod::lemma_add_mod_noop(p, j, 12);
            assert(k as int == (p + j) % 12);
        }
        let b: u8 = buffer[i];
        buffer.set(i, b ^ key[k]);
        i += 1;
    }
    proof {
        assert(buffer@ =~= xor_seq(key@, position as int, orig));
    }
}

/// XOR against the same keystream position is an involution: enciphering a
/// buffer twice at the same position gives the buffer back.
pub proof fn lemma_xor_involution(key: Seq<u8>, pos: int, b: Seq<u8>)
    requires
        key.len() == 12,
        pos >= 0,
    ensures
        xor_seq(key, pos, xor_seq(key, pos, b)) == b,
{
    let once = xor_seq(key, pos, b);
    let twice = xor_seq(key, pos, once);
    assert forall|i: int| 0 <= i < b.len() implies twice[i] == b[i] by {
        let k = key[(pos + i) % 12];
        let x = b[i];
        assert((x ^ k) ^ k == x) by (bit_vector);
    }
    assert(twice =~= b);
}

} // verus!
