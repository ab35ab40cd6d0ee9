use vstd::bytes::{
    spec_u32_from_le_bytes, spec_u64_from_le_bytes, u32_from_le_bytes, u64_from_le_bytes,
};
use vstd::prelude::*;
use vstd::slice::slice_subrange;

verus! {

/// The largest RSA modulus, in bits, that the key exchange works with.
pub const MAX_KEY_BITS: usize = 4096;

/// The smallest RSA modulus, in bits, whose PKCS#1 v1.5 block has room for a
/// session key.
pub const MIN_KEY_BITS: usize = 337;

/// Bytes of a serialized public key that are not part of its modulus: two
/// eight-byte counts and the four bytes of the exponent.
pub const PUBLIC_KEY_OVERHEAD: usize = 20;

/// Bytes in the longest serialized public key, that of a 4096-bit modulus.
pub const MAX_PUBLIC_KEY_LEN: usize = 532;

/// Whether the key exchange works with a modulus of `bits` bits.
pub open spec fn key_bits_supported(bits: nat) -> bool {
    MIN_KEY_BITS <= bits <= MAX_KEY_BITS
}

/// Bytes in the serialized public key of a `bits`-bit modulus: the modulus
/// in 32-bit words behind their count, then the one-word exponent behind its
/// count.
pub open spec fn spec_public_key_len(bits: nat) -> nat {
    PUBLIC_KEY_OVERHEAD as nat + 4 * ((bits + 31) / 32)
}

/// Bytes in a session key wrapped for a `bits`-bit modulus: as many as the
/// modulus has.
pub open spec fn spec_wrapped_key_len(bits: nat) -> nat {
    (bits + 7) / 8
}

/// The position of the highest set bit of a byte, counted from one; zero for
/// the zero byte.
pub open spec fn bit_length(b: u8) -> nat {
    if b >= 128 {
        8
    } else if b >= 64 {
        7
    } else if b >= 32 {
        6
    } else if b >= 16 {
        5
    } else if b >= 8 {
        4
    } else if b >= 4 {
        3
    } else if b >= 2 {
        2
    } else if b >= 1 {
        1
    } else {
        0
    }
}

/// The number of bits of the number that `m` holds, least significant byte
/// first: the position of its highest set bit.
pub open spec fn significant_bits(m: Seq<u8>) -> nat
    decreases m.len(),
{
    if m.len() == 0 {
        0
    } else if m.last() != 0 {
        (8 * (m.len() - 1) + bit_length(m.last())) as nat
    } else {
        significant_bits(m.drop_last())
    }
}

/// The bytes of the modulus within a serialized public key.
pub open spec fn modulus_bytes(key: Seq<u8>) -> Seq<u8> {
    key.subrange(8, key.len() - 12)
}

/// The size in bits of the modulus of a serialized public key, where `key`
/// is one: a count of 32-bit words, that many words of modulus of which the
/// last is not zero, the count one, and one word of exponent, with nothing
/// before, between or after, and no longer than the longest key.
pub open spec fn spec_modulus_bits(key: Seq<u8>) -> Option<nat> {
    let words = (key.len() - PUBLIC_KEY_OVERHEAD) / 4;
    if PUBLIC_KEY_OVERHEAD + 4 <= key.len() <= MAX_PUBLIC_KEY_LEN && (key.len()
        - PUBLIC_KEY_OVERHEAD) % 4 == 0 && spec_u64_from_le_bytes(key.subrange(0, 8)) == words
        && spec_u64_from_le_bytes(key.subrange(key.len() - 12, key.len() - 4)) == 1
        && significant_bits(modulus_bytes(key)) > 32 * (words - 1) {
        Some(significant_bits(modulus_bytes(key)))
    } else {
        None
    }
}

/// The public exponent of a serialized public key: its last four bytes,
/// least significant first.
pub open spec fn spec_public_exponent(key: Seq<u8>) -> nat {
    spec_u32_from_le_bytes(key.subrange(key.len() - 4, key.len() as int)) as nat
}

/// A number of `n` bytes has at most `8 * n` bits.
pub proof fn lemma_significant_bits_bound(m: Seq<u8>)
    ensures
        significant_bits(m) <= 8 * m.len(),
    decreases m.len(),
{
    if m.len() > 0 && m.last() == 0 {
        lemma_significant_bits_bound(m.drop_last());
    }
}

/// Fixed framing: every serialized public key of a `bits`-bit modulus has the
/// same length, whatever the modulus is.
pub proof fn lemma_public_key_len(key: Seq<u8>)
    requires
        spec_modulus_bits(key) is Some,
    ensures
        key.len() == spec_public_key_len(spec_modulus_bits(key)->0),
        1 <= spec_modulus_bits(key)->0 <= MAX_KEY_BITS,
{
    lemma_significant_bits_bound(modulus_bytes(key));
}

/// Bytes in the serialized public key of a `bits`-bit modulus; 532 for 4096
/// bits.
pub fn public_key_len(bits: usize) -> (len: usize)
    ensures
        len == spec_public_key_len(bits as nat),
{
    let words = if bits % 32 == 0 {
        bits / 32
    } else {
        bits / 32 + 1
    };
    PUBLIC_KEY_OVERHEAD + 4 * words
}

/// Bytes in a session key wrapped for a `bits`-bit modulus; 512 for 4096
/// bits.
pub fn wrapped_key_len(bits: usize) -> (len: usize)
    ensures
        len == spec_wrapped_key_len(bits as nat),
{
    if bits % 8 == 0 {
        bits / 8
    } else {
        bits / 8 + 1
    }
}

/// The position of the highest set bit of `b`, counted from one.
fn byte_bits(b: u8) -> (n: usize)
    ensures
        n == bit_length(b),
{
    let mut n: usize = 0;
    let mut rest = b;
    while rest != 0
        invariant
            n <= 8,
            bit_length(b) == n + bit_length(rest),
        decreases rest,
    {
        rest = rest / 2;
        n += 1;
    }
    n
}

/// The size in bits of the modulus of a serialized public key, or `None`
/// where `key` is not the serialization of one.
#[verifier::loop_isolation(false)]
pub fn modulus_bits(key: &[u8]) -> (bits: Option<usize>)
    ensures
        match spec_modulus_bits(key@) {
            Some(n) => bits == Some(n as usize) && n <= MAX_KEY_BITS,
            None => bits is None,
        },
{
    let len = key.len();
    if len < PUBLIC_KEY_OVERHEAD + 4 || len > MAX_PUBLIC_KEY_LEN || (len - PUBLIC_KEY_OVERHEAD) % 4
        != 0 {
        return None;
    }
    let words = (len - PUBLIC_KEY_OVERHEAD) / 4;
    if u64_from_le_bytes(slice_subrange(key, 0, 8)) != words as u64 {
        return None;
    }
    if u64_from_le_bytes(slice_subrange(key, len - 12, len - 4)) != 1 {
        return None;
    }
    let ghost modulus = modulus_bytes(key@);
    let mut end: usize = len - 12;
    while end > len - 16
        invariant
            len == key@.len(),
            PUBLIC_KEY_OVERHEAD + 4 <= len <= MAX_PUBLIC_KEY_LEN,
            len - 16 <= end <= len - 12,
            modulus == modulus_bytes(key@),
            significant_bits(modulus) == significant_bits(key@.subrange(8, end as int)),
        decreases end,
    {
        let top = key[end - 1];
        let ghost part = key@.subrange(8, end as int);
        assert(part.last() == top);
        assert(part.drop_last() =~= key@.subrange(8, end - 1));
        if top != 0 {
            assert(significant_bits(part) == 8 * (end - 9) + bit_length(top));
            assert(4 * words == len - PUBLIC_KEY_OVERHEAD);
            return Some(8 * (end - 9) + byte_bits(top));
        }
        end -= 1;
    }
    proof {
        lemma_significant_bits_bound(key@.subrange(8, end as int));
    }
    None
}

/// The public exponent of a serialized public key, or `None` where `key`
/// is too short to hold one.
pub fn public_exponent(key: &[u8]) -> (exponent: Option<u32>)
    ensures
        exponent is Some <==> key@.len() >= 4,
        exponent matches Some(e) ==> e == spec_public_exponent(key@),
{
    let len = key.len();
    if len < 4 {
        return None;
    }
    Some(u32_from_le_bytes(slice_subrange(key, len - 4, len)))
}

} // verus!
