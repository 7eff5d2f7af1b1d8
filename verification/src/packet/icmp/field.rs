//! Where each field of an ICMP message lies.

use std::ops::Range;
use vstd::prelude::*;

pub mod echo;
pub mod unreachable;

verus! {

/// Message type.
pub const TYPE: usize = 0;

/// Message code.
pub const CODE: usize = 1;

/// Checksum, big-endian.
pub const CHECKSUM: Range<usize> = 2..4;

/// Offset at which the data of a message starts; it runs to the end of the
/// buffer. This is also the length of the header that every message has.
pub const DATA: usize = 4;

} // verus!
