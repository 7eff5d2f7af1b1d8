//! Where each field of an ARP packet lies. Behind a fixed prefix of eight
//! bytes come four addresses whose lengths the prefix declares, so their
//! bounds are worked out from those lengths each time.

use std::ops::Range;
use vstd::prelude::*;

verus! {

/// Hardware type, big-endian.
pub const HTYPE: Range<usize> = 0..2;

/// Protocol type, big-endian.
pub const PTYPE: Range<usize> = 2..4;

/// Length of a hardware address in bytes.
pub const HLEN: usize = 4;

/// Length of a protocol address in bytes.
pub const PLEN: usize = 5;

/// Operation, big-endian.
pub const OPER: Range<usize> = 6..8;

/// Where the sender's hardware address ends.
pub open spec fn sha_end(hlen: int, plen: int) -> int {
    OPER.end + hlen
}

/// Where the sender's protocol address ends.
pub open spec fn spa_end(hlen: int, plen: int) -> int {
    sha_end(hlen, plen) + plen
}

/// Where the target's hardware address ends.
pub open spec fn tha_end(hlen: int, plen: int) -> int {
    spa_end(hlen, plen) + hlen
}

/// Where the target's protocol address ends, and the packet with it.
pub open spec fn tpa_end(hlen: int, plen: int) -> int {
    tha_end(hlen, plen) + plen
}

/// The sender's hardware address: `hlen` bytes behind the prefix.
#[allow(non_snake_case)]
pub fn SHA(hlen: usize, _plen: usize) -> (r: Range<usize>)
    requires
        sha_end(hlen as int, _plen as int) <= usize::MAX,
    ensures
        r.start == OPER.end,
        r.end == sha_end(hlen as int, _plen as int),
{
    OPER.end..(hlen + OPER.end)
}

/// The sender's protocol address: `plen` bytes behind the sender's hardware
/// address.
#[allow(non_snake_case)]
pub fn SPA(hlen: usize, plen: usize) -> (r: Range<usize>)
    requires
        spa_end(hlen as int, plen as int) <= usize::MAX,
    ensures
        r.start == sha_end(hlen as int, plen as int),
        r.end == spa_end(hlen as int, plen as int),
{
    let start = SHA(hlen, plen).end;
    start..(start + plen)
}

/// The target's hardware address: `hlen` bytes behind the sender's protocol
/// address.
#[allow(non_snake_case)]
pub fn THA(hlen: usize, plen: usize) -> (r: Range<usize>)
    requires
        tha_end(hlen as int, plen as int) <= usize::MAX,
    ensures
        r.start == spa_end(hlen as int, plen as int),
        r.end == tha_end(hlen as int, plen as int),
{
    let start = SPA(hlen, plen).end;
    start..(start + hlen)
}

/// The target's protocol address: `plen` bytes behind the target's hardware
/// address.
#[allow(non_snake_case)]
pub fn TPA(hlen: usize, plen: usize) -> (r: Range<usize>)
    requires
        tpa_end(hlen as int, plen as int) <= usize::MAX,
    ensures
        r.start == tha_end(hlen as int, plen as int),
        r.end == tpa_end(hlen as int, plen as int),
{
    let start = THA(hlen, plen).end;
    start..(start + plen)
}

} // verus!
