//! Where each field of an Ethernet frame lies.

use std::ops::Range;
use vstd::prelude::*;

verus! {

/// Destination address.
pub const DST: Range<usize> = 0..6;

/// Source address.
pub const SRC: Range<usize> = 6..12;

/// Ethertype, big-endian.
pub const TYP: Range<usize> = 12..14;

/// Offset at which the payload starts; it runs to the end of the buffer.
pub const PAYLOAD: usize = 14;

} // verus!
