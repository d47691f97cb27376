//! The hash oracle: the digest of a `(seed, nonce)` pair and the number of
//! zero bits that the digest starts with.

use vstd::prelude::*;
use vstd::std_specs::bits::{axiom_u8_leading_zeros, u8_leading_zeros};
use crate::trusted::{keccak256, keccak256_of};
use crate::wire::{encode_pair, lemma_pair_bytes_injective, pair_bytes};

verus! {

/// The sixteen bytes that are hashed for a candidate: the seed, then the
/// nonce, each least significant byte first.
pub open spec fn preimage(seed: u64, nonce: u64) -> Seq<u8> {
    pair_bytes(seed, nonce)
}

/// The digest of a candidate: the Keccak-256 hash of its preimage.
pub open spec fn digest_of(seed: u64, nonce: u64) -> Seq<u8> {
    keccak256_of(preimage(seed, nonce))
}

/// Different candidates are hashed from different bytes.
pub proof fn lemma_preimage_injective(seed: u64, nonce: u64, other_seed: u64, other_nonce: u64)
    requires
        preimage(seed, nonce) == preimage(other_seed, other_nonce),
    ensures
        seed == other_seed,
        nonce == other_nonce,
{
    lemma_pair_bytes_injective(seed, nonce, other_seed, other_nonce);
}

/// Bit `i` of `bytes`, counting from the most significant bit of the first
/// byte: bits 0 to 7 are the first byte, 8 to 15 the second, and so on.
pub open spec fn bit_at(bytes: Seq<u8>, i: int) -> bool {
    (bytes[i / 8] >> ((7 - i % 8) as u8)) & 1u8 == 1u8
}

/// The number of consecutive zero bits of `bytes` from bit `from` on, up to
/// the first one bit or the end of `bytes`.
pub open spec fn zero_run(bytes: Seq<u8>, from: int) -> nat
    decreases 8 * bytes.len() - from,
{
    if from < 0 || from >= 8 * bytes.len() || bit_at(bytes, from) {
        0
    } else {
        1 + zero_run(bytes, from + 1)
    }
}

/// The number of zero bits that `bytes` starts with; `8 * bytes.len()` when
/// every bit is zero.
pub open spec fn leading_zeros(bytes: Seq<u8>) -> nat {
    zero_run(bytes, 0)
}

/// A run of zero bits from `from` up to `upto`, closed by a one bit or by the
/// end of `bytes`, is the whole zero run from `from`.
pub proof fn lemma_zero_run_closed(bytes: Seq<u8>, from: int, upto: int)
    requires
        0 <= from <= upto <= 8 * bytes.len(),
        forall|j: int| from <= j < upto ==> !bit_at(bytes, j),
        upto == 8 * bytes.len() || bit_at(bytes, upto),
    ensures
        zero_run(bytes, from) == upto - from,
    decreases upto - from,
{
    if from < upto {
        lemma_zero_run_closed(bytes, from + 1, upto);
    }
}

/// The zero run from `from` ends within `bytes`.
pub proof fn lemma_zero_run_bound(bytes: Seq<u8>, from: int)
    requires
        0 <= from <= 8 * bytes.len(),
    ensures
        from + zero_run(bytes, from) <= 8 * bytes.len(),
    decreases 8 * bytes.len() - from,
{
    if from < 8 * bytes.len() && !bit_at(bytes, from) {
        lemma_zero_run_bound(bytes, from + 1);
    }
}

/// Every bit inside the zero run from `from` is zero, and the bit that
/// follows the run, if there is one, is one.
pub proof fn lemma_zero_run_bits(bytes: Seq<u8>, from: int)
    requires
        0 <= from <= 8 * bytes.len(),
    ensures
        forall|j: int| from <= j < from + zero_run(bytes, from) ==> !bit_at(bytes, j),
        from + zero_run(bytes, from) < 8 * bytes.len() ==> bit_at(
            bytes,
            from + zero_run(bytes, from),
        ),
    decreases 8 * bytes.len() - from,
{
    if from < 8 * bytes.len() && !bit_at(bytes, from) {
        lemma_zero_run_bits(bytes, from + 1);
    }
}

/// No sequence starts with more zero bits than it has bits.
pub proof fn lemma_leading_zeros_bound(bytes: Seq<u8>)
    ensures
        leading_zeros(bytes) <= 8 * bytes.len(),
{
    lemma_zero_run_bound(bytes, 0);
}

/// The count of leading zero bits is the position of the first one bit:
/// every bit before it is zero, and the bit at it, if there is one, is one.
pub proof fn lemma_leading_zeros_first_one(bytes: Seq<u8>)
    ensures
        forall|j: int| 0 <= j < leading_zeros(bytes) ==> !bit_at(bytes, j),
        leading_zeros(bytes) < 8 * bytes.len() ==> bit_at(bytes, leading_zeros(bytes) as int),
{
    lemma_zero_run_bits(bytes, 0);
}

/// The count is the only position with that property: a position whose
/// earlier bits are all zero and whose own bit is one, or which is the end of
/// the bytes, is the count of leading zero bits.
pub proof fn lemma_leading_zeros_unique(bytes: Seq<u8>, n: int)
    requires
        0 <= n <= 8 * bytes.len(),
        forall|j: int| 0 <= j < n ==> !bit_at(bytes, j),
        n == 8 * bytes.len() || bit_at(bytes, n),
    ensures
        leading_zeros(bytes) == n,
{
    lemma_zero_run_closed(bytes, 0, n);
}

/// No bit of a zero byte is set.
proof fn lemma_zero_byte_bits(k: u8)
    requires
        k < 8,
    ensures
        (0u8 >> k) & 1u8 != 1u8,
{
    assert((0u8 >> k) & 1u8 != 1u8) by (bit_vector);
}

/// A byte without a set bit is zero.
proof fn lemma_clear_bits_zero_byte(b: u8)
    requires
        forall|k: u8| k < 8 ==> #[trigger] ((b >> k) & 1u8) != 1u8,
    ensures
        b == 0,
{
    assert((b >> 0u8) & 1u8 != 1u8);
    assert((b >> 1u8) & 1u8 != 1u8);
    assert((b >> 2u8) & 1u8 != 1u8);
    assert((b >> 3u8) & 1u8 != 1u8);
    assert((b >> 4u8) & 1u8 != 1u8);
    assert((b >> 5u8) & 1u8 != 1u8);
    assert((b >> 6u8) & 1u8 != 1u8);
    assert((b >> 7u8) & 1u8 != 1u8);
    assert(((b >> 0u8) & 1u8 != 1u8 && (b >> 1u8) & 1u8 != 1u8 && (b >> 2u8) & 1u8 != 1u8 && (b
        >> 3u8) & 1u8 != 1u8 && (b >> 4u8) & 1u8 != 1u8 && (b >> 5u8) & 1u8 != 1u8 && (b >> 6u8)
        & 1u8 != 1u8 && (b >> 7u8) & 1u8 != 1u8) ==> b == 0) by (bit_vector);
}

/// Every bit counts as a leading zero exactly when every byte is zero.
pub proof fn lemma_all_zero_iff_full_count(bytes: Seq<u8>)
    ensures
        (forall|i: int| 0 <= i < bytes.len() ==> bytes[i] == 0) <==> leading_zeros(bytes) == 8
            * bytes.len(),
{
    if forall|i: int| 0 <= i < bytes.len() ==> bytes[i] == 0 {
        assert forall|j: int| 0 <= j < 8 * bytes.len() implies !bit_at(bytes, j) by {
            lemma_zero_byte_bits((7 - j % 8) as u8);
        }
        lemma_leading_zeros_unique(bytes, 8 * bytes.len() as int);
    }
    if leading_zeros(bytes) == 8 * bytes.len() {
        lemma_leading_zeros_first_one(bytes);
        assert forall|i: int| 0 <= i < bytes.len() implies bytes[i] == 0 by {
            assert forall|k: u8| k < 8 implies #[trigger] ((bytes[i] >> k) & 1u8) != 1u8 by {
                let j = 8 * i + (7 - k);
                assert(!bit_at(bytes, j));
                assert(j / 8 == i && (7 - j % 8) as u8 == k);
            }
            lemma_clear_bits_zero_byte(bytes[i]);
        }
    }
}

/// The count goes byte by byte: a zero first byte adds eight to the count of
/// the rest, and any other first byte settles the count by its own leading
/// zero bits, whatever follows it.
pub proof fn lemma_leading_zeros_by_byte(bytes: Seq<u8>)
    requires
        bytes.len() > 0,
    ensures
        bytes[0] == 0 ==> leading_zeros(bytes) == 8 + leading_zeros(bytes.drop_first()),
        bytes[0] != 0 ==> leading_zeros(bytes) == u8_leading_zeros(bytes[0]),
        bytes[0] != 0 ==> leading_zeros(bytes) < 8,
{
    let first = bytes[0];
    if first == 0 {
        let rest = bytes.drop_first();
        let n = leading_zeros(rest) as int;
        lemma_leading_zeros_first_one(rest);
        lemma_leading_zeros_bound(rest);
        assert forall|j: int| 0 <= j < 8 + n implies !bit_at(bytes, j) by {
            if j < 8 {
                lemma_zero_byte_bits((7 - j % 8) as u8);
            } else {
                assert(bytes[j / 8] == rest[(j - 8) / 8]);
                assert(!bit_at(rest, j - 8));
            }
        }
        if n < 8 * rest.len() {
            assert(bytes[(8 + n) / 8] == rest[n / 8]);
            assert(bit_at(rest, n));
        }
        lemma_leading_zeros_unique(bytes, 8 + n);
    } else {
        axiom_u8_leading_zeros(first);
        let n = u8_leading_zeros(first) as u8;
        let at = (7 - n) as u8;
        assert((first >> at) & 1u8 != 0u8 ==> (first >> at) & 1u8 == 1u8) by (bit_vector);
        assert forall|j: int| 0 <= j < n implies !bit_at(bytes, j) by {
            let k = (7 - j) as u8;
            assert((first >> k) & 1u8 == 0u8);
        }
        assert(bit_at(bytes, n as int));
        lemma_leading_zeros_unique(bytes, n as int);
    }
}

/// Hashes the candidate `nonce` for `seed`. The result depends on the two
/// numbers alone, so equal candidates always have equal digests.
pub fn digest(seed: u64, nonce: u64) -> (hash: [u8; 32])
    ensures
        hash@ == digest_of(seed, nonce),
{
    let input: [u8; 16] = encode_pair(seed, nonce);
    keccak256(input.as_slice())
}

/// Counts the zero bits that `hash` starts with, most significant bit of each
/// byte first. The count is of bits, not of bytes: a first byte of `0x0f`
/// gives four.
pub fn count_leading_zeros(hash: &[u8]) -> (count: usize)
    requires
        8 * hash@.len() <= usize::MAX,
    ensures
        count == leading_zeros(hash@),
{
    let mut count: usize = 0;
    let mut i: usize = 0;
    proof {
        assert(hash@.skip(0) =~= hash@);
    }
    while i < hash.len()
        invariant
            i <= hash@.len(),
            8 * hash@.len() <= usize::MAX,
            count == 8 * i,
            leading_zeros(hash@) == count + leading_zeros(hash@.skip(i as int)),
        decreases hash@.len() - i,
    {
        let byte: u8 = hash[i];
        proof {
            lemma_leading_zeros_by_byte(hash@.skip(i as int));
            assert(hash@.skip(i as int).drop_first() =~= hash@.skip(i + 1));
        }
        if byte != 0 {
            return count + byte.leading_zeros() as usize;
        }
        count += 8;
        i += 1;
    }
    count
}

/// Counts the zero bits that a digest starts with: 256 for the all-zero
/// digest, less for any other.
pub fn leading_zero_bits(hash: &[u8; 32]) -> (count: u32)
    ensures
        count == leading_zeros(hash@),
        count <= 256,
{
    proof {
        lemma_leading_zeros_bound(hash@);
    }
    count_leading_zeros(hash.as_slice()) as u32
}

} // verus!
