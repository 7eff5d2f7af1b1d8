//! The checksum of an IPv4 header. It covers the header and nothing else;
//! the word that holds the checksum itself is left out of the sum.

use crate::packet::checksum::{checksum_of, lemma_stored_checksum_verifies};
use crate::packet::ipv4::field;
use crate::packet::wire::{be16_at, with_be16};
use vstd::prelude::*;

verus! {

/// The checksum that belongs to the header `bytes`.
pub open spec fn header_checksum(bytes: Seq<u8>) -> u16 {
    checksum_of(bytes, field::CHECKSUM.start as int)
}

/// Computes the checksum of the header `data`, whatever its checksum field
/// holds.
pub fn calc(data: &[u8]) -> (sum: u16)
    ensures
        sum == header_checksum(data@),
{
    crate::packet::checksum::calc(data, field::CHECKSUM.start)
}

/// Recomputes the checksum of the header `data` and compares it with
/// `expected`.
pub fn verify(data: &[u8], expected: u16) -> (ok: bool)
    ensures
        ok == (header_checksum(data@) == expected),
{
    crate::packet::checksum::verify(data, field::CHECKSUM.start, expected)
}

/// A header that stores its own checksum verifies against the stored value.
pub proof fn lemma_sealed_header_verifies(bytes: Seq<u8>)
    requires
        bytes.len() >= field::CHECKSUM.end,
    ensures
        ({
            let sealed = with_be16(bytes, field::CHECKSUM.start as int, header_checksum(bytes));
            header_checksum(sealed) == be16_at(sealed, field::CHECKSUM.start as int)
        }),
{
    lemma_stored_checksum_verifies(bytes, field::CHECKSUM.start as int);
}

} // verus!
