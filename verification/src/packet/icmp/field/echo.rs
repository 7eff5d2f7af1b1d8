//! The body of an echo request or echo reply.

use std::ops::Range;
use vstd::prelude::*;

verus! {

/// Identifier, big-endian.
pub const IDENT: Range<usize> = 4..6;

/// Sequence number, big-endian.
pub const SEQNO: Range<usize> = 6..8;

/// Offset at which the echoed data starts; it runs to the end of the buffer.
pub const DATA: usize = 8;

} // verus!
