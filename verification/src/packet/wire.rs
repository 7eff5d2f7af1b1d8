//! Byte-level primitives shared by the packet views: big-endian 16-bit
//! fields and in-place replacement of a byte range.

use byteorder::{BigEndian, ByteOrder};
use vstd::prelude::*;
use vstd::slice::slice_subrange;

verus! {

/// The 16-bit value whose big-endian encoding is the byte pair `(hi, lo)`.
pub open spec fn be16(hi: u8, lo: u8) -> u16 {
    (hi as int * 256 + lo as int) as u16
}

/// The more significant byte of `v`.
pub open spec fn hi_byte(v: u16) -> u8 {
    (v as int / 256) as u8
}

/// The less significant byte of `v`.
pub open spec fn lo_byte(v: u16) -> u8 {
    (v as int % 256) as u8
}

/// The big-endian 16-bit value stored in `s` at offsets `at` and `at + 1`.
pub open spec fn be16_at(s: Seq<u8>, at: int) -> u16
    recommends
        0 <= at,
        at + 2 <= s.len(),
{
    be16(s[at], s[at + 1])
}

/// `s` with the big-endian encoding of `v` stored at offsets `at` and `at + 1`.
pub open spec fn with_be16(s: Seq<u8>, at: int, v: u16) -> Seq<u8>
    recommends
        0 <= at,
        at + 2 <= s.len(),
{
    s.update(at, hi_byte(v)).update(at + 1, lo_byte(v))
}

/// `s` with the bytes at offsets `at .. at + t.len()` replaced by `t`.
pub open spec fn splice(s: Seq<u8>, at: int, t: Seq<u8>) -> Seq<u8>
    recommends
        0 <= at,
        at + t.len() <= s.len(),
{
    s.subrange(0, at) + t + s.subrange(at + t.len(), s.len() as int)
}

/// `a` comes before `b` when the two are read byte by byte from the front:
/// at the first place where they differ, `a` holds the smaller byte.
pub open spec fn precedes(a: Seq<u8>, b: Seq<u8>) -> bool {
    exists|k: int|
        0 <= k < a.len() && k < b.len() && #[trigger] a[k] < b[k] && forall|j: int|
            0 <= j < k ==> a[j] == b[j]
}

/// `a` and `b` are equally long and agree on every byte outside `lo .. hi`.
pub open spec fn same_outside(a: Seq<u8>, b: Seq<u8>, lo: int, hi: int) -> bool {
    &&& a.len() == b.len()
    &&& forall|k: int| 0 <= k < a.len() && !(lo <= k < hi) ==> a[k] == b[k]
}

/// Encoding a value and decoding the two bytes gives the value back.
pub proof fn lemma_be16_of_bytes(v: u16)
    ensures
        be16(hi_byte(v), lo_byte(v)) == v,
{
}

/// Decoding a byte pair and encoding the value gives the two bytes back.
pub proof fn lemma_bytes_of_be16(hi: u8, lo: u8)
    ensures
        hi_byte(be16(hi, lo)) == hi,
        lo_byte(be16(hi, lo)) == lo,
{
}

/// A 16-bit field reads back what was stored in it, and storing it changes
/// no byte outside the field.
pub proof fn lemma_with_be16(s: Seq<u8>, at: int, v: u16)
    requires
        0 <= at,
        at + 2 <= s.len(),
    ensures
        with_be16(s, at, v).len() == s.len(),
        be16_at(with_be16(s, at, v), at) == v,
        with_be16(s, at, v) == splice(s, at, seq![hi_byte(v), lo_byte(v)]),
        forall|k: int|
            0 <= k < s.len() && k != at && k != at + 1 ==> #[trigger] with_be16(s, at, v)[k]
                == s[k],
{
    lemma_be16_of_bytes(v);
    assert(with_be16(s, at, v) =~= splice(s, at, seq![hi_byte(v), lo_byte(v)]));
}

/// A replaced range reads back the replacement, the length stays, and every
/// byte outside the range keeps its value.
pub proof fn lemma_splice(s: Seq<u8>, at: int, t: Seq<u8>)
    requires
        0 <= at,
        at + t.len() <= s.len(),
    ensures
        splice(s, at, t).len() == s.len(),
        splice(s, at, t).subrange(at, at + t.len()) == t,
        forall|k: int|
            0 <= k < at || at + t.len() <= k < s.len() ==> #[trigger] splice(s, at, t)[k] == s[k],
{
    assert(splice(s, at, t).subrange(at, at + t.len()) =~= t);
}

/// A 16-bit field outside the range in which two buffers may differ holds
/// the same value in both.
pub proof fn lemma_same_outside_be16(a: Seq<u8>, b: Seq<u8>, lo: int, hi: int, at: int)
    requires
        same_outside(a, b, lo, hi),
        0 <= at,
        at + 2 <= a.len(),
        at + 2 <= lo || hi <= at,
    ensures
        be16_at(a, at) == be16_at(b, at),
{
}

/// A range outside the one in which two buffers may differ holds the same
/// bytes in both.
pub proof fn lemma_same_outside_range(
    a: Seq<u8>,
    b: Seq<u8>,
    lo: int,
    hi: int,
    from: int,
    to: int,
)
    requires
        same_outside(a, b, lo, hi),
        0 <= from <= to <= a.len(),
        to <= lo || hi <= from,
    ensures
        a.subrange(from, to) == b.subrange(from, to),
{
    assert(a.subrange(from, to) =~= b.subrange(from, to));
}

/// Calls `byteorder::BigEndian::read_u16`, which decodes the first two bytes
/// of `buf` as a big-endian integer and panics on a shorter slice.
#[verifier::external_body]
fn read_u16(buf: &[u8]) -> (r: u16)
    requires
        buf@.len() >= 2,
    ensures
        r == be16(buf@[0], buf@[1]),
{
    BigEndian::read_u16(buf)
}

/// Calls `byteorder::BigEndian::write_u16`, which overwrites the first two
/// bytes of `buf` with the big-endian encoding of `n`, leaves every other
/// byte alone, and panics on a shorter slice.
#[verifier::external_body]
fn write_u16(buf: &mut [u8], n: u16)
    requires
        old(buf)@.len() >= 2,
    ensures
        final(buf)@ == with_be16(old(buf)@, 0, n),
{
    BigEndian::write_u16(buf, n)
}

/// Reads the big-endian 16-bit field at offset `at`.
pub fn get_u16(buf: &[u8], at: usize) -> (r: u16)
    requires
        at + 2 <= buf.len(),
    ensures
        r == be16_at(buf@, at as int),
{
    read_u16(slice_subrange(buf, at, at + 2))
}

/// Overwrites the big-endian 16-bit field at offset `at` with `v`.
pub fn put_u16(buf: &mut Vec<u8>, at: usize, v: u16)
    requires
        at + 2 <= old(buf).len(),
    ensures
        final(buf)@ == with_be16(old(buf)@, at as int, v),
{
    let ghost before = buf@;
    let (_, field) = buf.as_mut_slice().split_at_mut(at);
    write_u16(field, v);
    assert(buf@ =~= with_be16(before, at as int, v));
}

/// Overwrites the bytes at offsets `at .. at + src.len()` with `src`.
pub fn put_bytes(buf: &mut Vec<u8>, at: usize, src: &[u8])
    requires
        at + src.len() <= old(buf).len(),
    ensures
        final(buf)@ == splice(old(buf)@, at as int, src@),
{
    let ghost before = buf@;
    let n = src.len();
    let mut i: usize = 0;
    while i < n
        invariant
            i <= n,
            n == src.len(),
            at + n <= buf.len(),
            buf.len() == before.len(),
            forall|k: int|
                0 <= k < before.len() ==> buf@[k] == if at <= k < at + i {
                    src@[k - at]
                } else {
                    before[k]
                },
        decreases n - i,
    {
        buf[at + i] = src[i];
        i += 1;
    }
    assert(buf@ =~= splice(before, at as int, src@));
}

} // verus!
