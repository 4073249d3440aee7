//! The 64-bit URL identity hash the destination schema indexes URLs by.
//!
//! The hash must match the destination's own computation bit for bit: a
//! 32-bit accumulator is folded over the raw UTF-8 bytes of the text, and
//! the full hash combines the hash of the part before the first `:` with
//! the hash of the whole URL.

use vstd::prelude::*;
use vstd::string::StringSliceAdditionalSpecFns;

use crate::ImportError;

verus! {

/// Multiplier of the destination's string hash: the 32-bit golden ratio.
pub const GOLDEN_RATIO: u32 = 0x9E3779B9;

/// One accumulator step: rotate left by five, fold in the byte by xor,
/// multiply by `GOLDEN_RATIO` modulo two to the thirty-two.
pub open spec fn spec_hash_step(h: u32, b: u8) -> u32 {
    vstd::wrapping::u32_specs::wrapping_mul(GOLDEN_RATIO, ((h << 5) | (h >> 27)) ^ (b as u32))
}

/// The 32-bit accumulator after folding `spec_hash_step` over `bytes`
/// in order, starting from zero.
pub open spec fn spec_hash_bytes(bytes: Seq<u8>) -> u32
    decreases bytes.len(),
{
    if bytes.len() == 0 {
        0u32
    } else {
        spec_hash_step(spec_hash_bytes(bytes.drop_last()), bytes.last())
    }
}

/// The simple hash of a text: the accumulator over the text's UTF-8 bytes,
/// zero-extended to 64 bits.
pub open spec fn spec_hash_simple(text: Seq<char>) -> u64 {
    spec_hash_bytes(vstd::utf8::encode_utf8(text)) as u64
}

/// Index of the first `:` byte, or `bytes.len()` if there is none.
pub open spec fn first_colon(bytes: Seq<u8>) -> int
    decreases bytes.len(),
{
    if bytes.len() == 0 {
        0
    } else if bytes.first() == 58u8 {
        0
    } else {
        1 + first_colon(bytes.drop_first())
    }
}

/// Whether the byte sequence holds a `:` (the protocol separator).
pub open spec fn has_colon(bytes: Seq<u8>) -> bool {
    first_colon(bytes) < bytes.len()
}

/// The full URL hash: the low 16 bits of the hash of the part before the
/// first `:`, shifted into bits 32..48, plus the hash of the whole text.
pub open spec fn spec_hash(bytes: Seq<u8>) -> u64
    recommends
        has_colon(bytes),
{
    (((spec_hash_bytes(bytes.take(first_colon(bytes))) as u64 & 0xFFFF) << 32)
        + spec_hash_bytes(bytes) as u64) as u64
}

/// `first_colon` points at the first `:` byte: it is in range, the byte
/// there (if any) is `:`, and no earlier byte is.
pub proof fn lemma_first_colon(bytes: Seq<u8>)
    ensures
        0 <= first_colon(bytes) <= bytes.len(),
        first_colon(bytes) < bytes.len() ==> bytes[first_colon(bytes)] == 58u8,
        forall|j: int| 0 <= j < first_colon(bytes) ==> bytes[j] != 58u8,
    decreases bytes.len(),
{
    if bytes.len() != 0 && bytes.first() != 58u8 {
        lemma_first_colon(bytes.drop_first());
        assert forall|j: int| 0 <= j < first_colon(bytes) implies bytes[j] != 58u8 by {
            if j > 0 {
                assert(bytes.drop_first()[j - 1] == bytes[j]);
            }
        }
    }
}

/// If no byte before `i` is a `:` and the byte at `i` is, then `i` is the
/// first colon.
pub proof fn lemma_first_colon_at(bytes: Seq<u8>, i: int)
    requires
        0 <= i < bytes.len(),
        bytes[i] == 58u8,
        forall|j: int| 0 <= j < i ==> bytes[j] != 58u8,
    ensures
        first_colon(bytes) == i,
{
    lemma_first_colon(bytes);
    if first_colon(bytes) < i {
        assert(bytes[first_colon(bytes)] != 58u8);
    }
}

/// If no byte of the sequence is a `:`, the first colon equals the length.
pub proof fn lemma_no_colon(bytes: Seq<u8>)
    requires
        forall|j: int| 0 <= j < bytes.len() ==> bytes[j] != 58u8,
    ensures
        first_colon(bytes) == bytes.len(),
{
    lemma_first_colon(bytes);
    if first_colon(bytes) < bytes.len() {
        assert(bytes[first_colon(bytes)] != 58u8);
    }
}

/// The hash is a function of the input bytes alone: equal inputs give
/// equal results, so repeated calls on the same text agree.
pub proof fn lemma_hash_deterministic(a: Seq<u8>, b: Seq<u8>)
    requires
        a == b,
    ensures
        spec_hash_bytes(a) == spec_hash_bytes(b),
        spec_hash(a) == spec_hash(b),
{
}

/// The 32-bit accumulator over a byte slice, folded in order.
fn hash_bytes(bytes: &[u8]) -> (r: u32)
    ensures
        r == spec_hash_bytes(bytes@),
{
    let n = bytes.len();
    let mut h: u32 = 0;
    for i in 0..n
        invariant
            n == bytes@.len(),
            h == spec_hash_bytes(bytes@.take(i as int)),
    {
        let b = bytes[i];
        h = GOLDEN_RATIO.wrapping_mul(((h << 5) | (h >> 27)) ^ (b as u32));
        proof {
            assert(bytes@.take(i + 1).drop_last() =~= bytes@.take(i as int));
            assert(bytes@.take(i + 1).last() == b);
        }
    }
    proof {
        assert(bytes@.take(n as int) =~= bytes@);
    }
    h
}

/// The simple string hash: the 32-bit accumulator over the text's UTF-8
/// bytes, zero-extended to 64 bits.
pub fn hash_simple(text: &str) -> (r: u64)
    ensures
        r == spec_hash_simple(text@),
{
    hash_bytes(text.as_bytes()) as u64
}

/// The 64-bit URL hash. Fails exactly when the URL holds no `:` character
/// (the protocol separator); otherwise returns the destination-compatible
/// hash of the URL's UTF-8 bytes.
pub fn hash(url: &str) -> (r: Result<u64, ImportError>)
    ensures
        r is Ok <==> has_colon(url.spec_bytes()),
        r is Ok ==> r->Ok_0 == spec_hash(url.spec_bytes()),
        r is Err ==> r->Err_0 == ImportError::MissingProtocol,
{
    let bytes = url.as_bytes();
    let n = bytes.len();
    let mut i: usize = 0;
    while i < n && bytes[i] != 58u8
        invariant
            n == bytes@.len(),
            0 <= i <= n,
            forall|j: int| 0 <= j < i ==> bytes@[j] != 58u8,
        decreases n - i,
    {
        i += 1;
    }
    if i == n {
        proof {
            lemma_no_colon(bytes@);
        }
        return Err(ImportError::MissingProtocol);
    }
    proof {
        lemma_first_colon_at(bytes@, i as int);
    }
    let prefix = vstd::slice::slice_subrange(bytes, 0, i);
    let hp = hash_bytes(prefix);
    let hu = hash_bytes(bytes);
    let high: u64 = (hp as u64) & 0xFFFF;
    proof {
        assert(high <= 0xFFFF) by (bit_vector)
            requires
                high == (hp as u64) & 0xFFFF,
        ;
        assert(high << 32 <= 0xFFFF_0000_0000u64) by (bit_vector)
            requires
                high <= 0xFFFF,
        ;
    }
    let r: u64 = (high << 32) + (hu as u64);
    proof {
        assert(bytes@.take(i as int) =~= prefix@);
    }
    Ok(r)
}

} // verus!
