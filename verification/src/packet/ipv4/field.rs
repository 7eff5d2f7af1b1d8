//! Where each field of an IPv4 packet lies. The options and the payload
//! have no fixed place: their bounds follow from the header length and the
//! total length that the packet itself declares.

use std::ops::Range;
use vstd::prelude::*;

verus! {

/// Version in the upper four bits, header length in 32-bit words in the
/// lower four.
pub const VERSION_IHL: usize = 0;

/// Type of service.
pub const TOS: usize = 1;

/// Total length of the packet in bytes, big-endian.
pub const LENGTH: Range<usize> = 2..4;

/// Identification, big-endian.
pub const IDENT: Range<usize> = 4..6;

/// Flags in the upper three bits, fragment offset in units of eight bytes
/// in the lower thirteen; big-endian.
pub const FLAG_OFFSET: Range<usize> = 6..8;

/// Time to live.
pub const TTL: usize = 8;

/// Protocol of the payload.
pub const PROTOCOL: usize = 9;

/// Header checksum, big-endian.
pub const CHECKSUM: Range<usize> = 10..12;

/// Source address.
pub const SRC_ADDR: Range<usize> = 12..16;

/// Destination address.
pub const DST_ADDR: Range<usize> = 16..20;

/// Where the options end, for a header of `ihl` words.
pub open spec fn header_end(ihl: int) -> int {
    ihl * 4
}

/// The options of a header of `ihl` words: from the end of the fixed fields
/// to the end of the header.
#[allow(non_snake_case)]
pub fn OPTION(ihl: usize) -> (r: Range<usize>)
    requires
        ihl * 4 <= usize::MAX,
    ensures
        r.start == DST_ADDR.end,
        r.end == header_end(ihl as int),
{
    let start = DST_ADDR.end;
    start..(ihl * 4)
}

/// The payload of a packet with a header of `ihl` words and a total length
/// of `length` bytes: from the end of the header to the total length.
#[allow(non_snake_case)]
pub fn PAYLOAD(ihl: usize, length: usize) -> (r: Range<usize>)
    requires
        ihl * 4 <= usize::MAX,
    ensures
        r.start == header_end(ihl as int),
        r.end == length,
{
    (ihl * 4)..length
}

} // verus!
