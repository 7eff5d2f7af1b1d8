//! The Internet checksum: the ones'-complement sum of the big-endian 16-bit
//! words of a byte span, complemented.
//!
//! The checksum of a header is stored inside the span it covers, so the sum
//! leaves out the word at the offset of that field: a stale stored value
//! never changes the result. A trailing byte that has no partner to form a
//! word with takes no part in the sum.

use crate::packet::wire::{be16_at, get_u16, lemma_with_be16, with_be16};
use vstd::prelude::*;

verus! {

/// The sum of the first `n` big-endian words of `bytes`, leaving out the word
/// that starts at byte offset `field`.
pub open spec fn word_sum(bytes: Seq<u8>, field: int, n: nat) -> nat
    decreases n,
{
    if n == 0 {
        0
    } else {
        let k = n - 1;
        let word = if 2 * k == field {
            0nat
        } else {
            be16_at(bytes, 2 * k) as nat
        };
        word_sum(bytes, field, k as nat) + word
    }
}

/// The number of whole 16-bit words in `bytes`.
pub open spec fn word_count(bytes: Seq<u8>) -> nat {
    bytes.len() / 2
}

/// The checksum of `bytes` when the checksum field sits at byte offset
/// `field`: the ones'-complement of the sum of the other words, computed
/// modulo `0xffff`.
pub open spec fn checksum_of(bytes: Seq<u8>, field: int) -> u16 {
    let residue = word_sum(bytes, field, word_count(bytes)) % 0xffff;
    if residue == 0 {
        0
    } else {
        (0xffff - residue) as u16
    }
}

/// The sum depends only on the bytes outside the checksum field.
pub proof fn lemma_word_sum_outside_field(a: Seq<u8>, b: Seq<u8>, field: int, n: nat)
    requires
        a.len() == b.len(),
        2 * n <= a.len(),
        field % 2 == 0,
        forall|k: int| 0 <= k < a.len() && k != field && k != field + 1 ==> a[k] == b[k],
    ensures
        word_sum(a, field, n) == word_sum(b, field, n),
    decreases n,
{
    if n > 0 {
        lemma_word_sum_outside_field(a, b, field, (n - 1) as nat);
    }
}

/// Storing any value in the checksum field leaves the checksum unchanged.
pub proof fn lemma_checksum_ignores_field(bytes: Seq<u8>, field: int, stored: u16)
    requires
        0 <= field,
        field % 2 == 0,
        field + 2 <= bytes.len(),
    ensures
        checksum_of(with_be16(bytes, field, stored), field) == checksum_of(bytes, field),
{
    lemma_with_be16(bytes, field, stored);
    lemma_word_sum_outside_field(
        with_be16(bytes, field, stored),
        bytes,
        field,
        word_count(bytes),
    );
}

/// A span whose checksum field holds its own checksum verifies.
pub proof fn lemma_stored_checksum_verifies(bytes: Seq<u8>, field: int)
    requires
        0 <= field,
        field % 2 == 0,
        field + 2 <= bytes.len(),
    ensures
        ({
            let sealed = with_be16(bytes, field, checksum_of(bytes, field));
            checksum_of(sealed, field) == be16_at(sealed, field)
        }),
{
    lemma_checksum_ignores_field(bytes, field, checksum_of(bytes, field));
    lemma_with_be16(bytes, field, checksum_of(bytes, field));
}

/// Computes the checksum of `data`, leaving out the word at byte offset
/// `field`.
pub fn calc(data: &[u8], field: usize) -> (sum: u16)
    ensures
        sum == checksum_of(data@, field as int),
{
    let words = data.len() / 2;
    let mut acc: u32 = 0xffff;
    let mut k: usize = 0;
    while k < words
        invariant
            k <= words,
            words == data.len() / 2,
            1 <= acc <= 0xffff,
            acc as int % 0xffff == word_sum(data@, field as int, k as nat) % 0xffff,
        decreases words - k,
    {
        if 2 * k != field {
            let word = get_u16(data, 2 * k);
            acc = acc + word as u32;
            if acc > 0xffff {
                acc = acc - 0xffff;
            }
        }
        k += 1;
    }
    let folded = acc as u16;
    assert(!folded == (0xffff - folded) as u16) by (bit_vector);
    !folded
}

/// Recomputes the checksum of `data` and compares it with `expected`.
pub fn verify(data: &[u8], field: usize, expected: u16) -> (ok: bool)
    ensures
        ok == (checksum_of(data@, field as int) == expected),
{
    calc(data, field) == expected
}

} // verus!
