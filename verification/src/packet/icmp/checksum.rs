//! The checksum of an ICMP message. It covers the whole message; the word
//! that holds the checksum itself is left out of the sum.

use crate::packet::checksum::{checksum_of, lemma_stored_checksum_verifies};
use crate::packet::icmp::field;
use crate::packet::wire::{be16_at, with_be16};
use vstd::prelude::*;

verus! {

/// The checksum that belongs to the message `bytes`.
pub open spec fn message_checksum(bytes: Seq<u8>) -> u16 {
    checksum_of(bytes, field::CHECKSUM.start as int)
}

/// Computes the checksum of the message `data`, whatever its checksum field
/// holds.
pub fn calc(data: &[u8]) -> (sum: u16)
    ensures
        sum == message_checksum(data@),
{
    crate::packet::checksum::calc(data, field::CHECKSUM.start)
}

/// Recomputes the checksum of the message `data` and compares it with
/// `expected`.
pub fn verify(data: &[u8], expected: u16) -> (ok: bool)
    ensures
        ok == (message_checksum(data@) == expected),
{
    crate::packet::checksum::verify(data, field::CHECKSUM.start, expected)
}

/// A message that stores its own checksum verifies against the stored value.
pub proof fn lemma_sealed_message_verifies(bytes: Seq<u8>)
    requires
        bytes.len() >= field::DATA,
    ensures
        ({
            let sealed = with_be16(bytes, field::CHECKSUM.start as int, message_checksum(bytes));
            message_checksum(sealed) == be16_at(sealed, field::CHECKSUM.start as int)
        }),
{
    lemma_stored_checksum_verifies(bytes, field::CHECKSUM.start as int);
}

} // verus!
