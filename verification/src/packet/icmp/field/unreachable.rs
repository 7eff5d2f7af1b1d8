//! The body of a destination-unreachable message.

use std::ops::Range;
use vstd::prelude::*;

verus! {

/// Two bytes that carry nothing.
pub const UNUSED: Range<usize> = 4..6;

/// MTU of the next hop, big-endian.
pub const NEXT: Range<usize> = 6..8;

/// Offset at which the quoted datagram starts; it runs to the end of the
/// buffer.
pub const DATA: usize = 8;

} // verus!
