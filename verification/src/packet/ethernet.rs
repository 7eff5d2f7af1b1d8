//! Ethernet frames: a 14-byte header of destination address, source address
//! and ethertype, followed by the payload.

use crate::packet::error::{Error, ErrorKind};
use crate::packet::wire::{
    be16_at, get_u16, hi_byte, lemma_splice, lemma_with_be16, lo_byte, precedes, put_bytes, put_u16,
    splice, with_be16,
};
use std::cmp::Ordering;
use vstd::prelude::*;
use vstd::slice::slice_subrange;
use vstd::std_specs::cmp::{PartialEqSpecImpl, PartialOrdSpecImpl};
use vstd::std_specs::convert::FromSpecImpl;

pub mod field;

verus! {

/// The protocol that a frame's payload belongs to.
///
/// On the wire `0x0800` stands for `Ipv4`, `0x0806` for `Ipv6` and `0x86dd`
/// for `Arp`; every other value is `UNKNOWN`.
#[derive(Debug, PartialEq, Eq, Structural, Clone, Copy)]
pub enum EtherType {
    Ipv4,
    Ipv6,
    Arp,
    UNKNOWN,
}

impl EtherType {
    /// The type that the wire value `code` stands for.
    pub open spec fn of(code: u16) -> EtherType {
        if code == 0x0800 {
            EtherType::Ipv4
        } else if code == 0x0806 {
            EtherType::Ipv6
        } else if code == 0x86dd {
            EtherType::Arp
        } else {
            EtherType::UNKNOWN
        }
    }

    /// The wire value that is written for this type.
    pub open spec fn code(self) -> u16 {
        match self {
            EtherType::Ipv4 => 0x0800,
            EtherType::Ipv6 => 0x0806,
            EtherType::Arp => 0x86dd,
            EtherType::UNKNOWN => 0x0000,
        }
    }

    /// The length in bytes of an address of this protocol: four for IPv4,
    /// none for a protocol whose addresses this library does not handle.
    pub open spec fn spec_addr_len(&self) -> usize {
        match self {
            EtherType::Ipv4 => 4,
            _ => 0,
        }
    }

    /// The length in bytes of an address of this protocol.
    #[verifier::when_used_as_spec(spec_addr_len)]
    pub fn addr_len(&self) -> (n: usize)
        ensures
            n == self.spec_addr_len(),
    {
        match self {
            EtherType::Ipv4 => 4,
            _ => 0,
        }
    }

    /// Writing a type and reading the value back gives the same type.
    pub proof fn lemma_code_roundtrip(typ: EtherType)
        ensures
            EtherType::of(typ.code()) == typ,
    {
    }
}

impl From<u16> for EtherType {
    fn from(typ: u16) -> (r: Self) {
        match typ {
            0x0800 => EtherType::Ipv4,
            0x0806 => EtherType::Ipv6,
            0x86dd => EtherType::Arp,
            _ => EtherType::UNKNOWN,
        }
    }
}

impl FromSpecImpl<u16> for EtherType {
    open spec fn obeys_from_spec() -> bool {
        true
    }

    open spec fn from_spec(typ: u16) -> Self {
        EtherType::of(typ)
    }
}

impl From<EtherType> for u16 {
    fn from(typ: EtherType) -> (r: u16) {
        match typ {
            EtherType::Ipv4 => 0x0800,
            EtherType::Ipv6 => 0x0806,
            EtherType::Arp => 0x86dd,
            EtherType::UNKNOWN => 0x0000,
        }
    }
}

impl FromSpecImpl<EtherType> for u16 {
    open spec fn obeys_from_spec() -> bool {
        true
    }

    open spec fn from_spec(typ: EtherType) -> u16 {
        typ.code()
    }
}

/// A 48-bit hardware address. Addresses compare byte by byte, the first byte
/// weighing most.
#[derive(Debug, Eq, Ord, Clone, Copy, Default)]
pub struct MACAddress(pub [u8; 6]);

impl View for MACAddress {
    type V = Seq<u8>;

    open spec fn view(&self) -> Seq<u8> {
        self.0@
    }
}

impl PartialEq for MACAddress {
    fn eq(&self, other: &Self) -> (r: bool) {
        let r = self.0[0] == other.0[0] && self.0[1] == other.0[1] && self.0[2] == other.0[2]
            && self.0[3] == other.0[3] && self.0[4] == other.0[4] && self.0[5] == other.0[5];
        proof {
            if r {
                assert(self@ =~= other@);
            }
        }
        r
    }
}

impl PartialEqSpecImpl for MACAddress {
    open spec fn obeys_eq_spec() -> bool {
        true
    }

    open spec fn eq_spec(&self, other: &Self) -> bool {
        self@ == other@
    }
}

impl PartialOrd for MACAddress {
    fn partial_cmp(&self, other: &Self) -> (r: Option<Ordering>) {
        let mut i: usize = 0;
        while i < 6
            invariant
                i <= 6,
                forall|j: int| 0 <= j < i ==> self@[j] == other@[j],
            decreases 6 - i,
        {
            if self.0[i] < other.0[i] {
                return Some(Ordering::Less);
            }
            if self.0[i] > other.0[i] {
                return Some(Ordering::Greater);
            }
            i += 1;
        }
        assert(self@ =~= other@);
        Some(Ordering::Equal)
    }
}

impl PartialOrdSpecImpl for MACAddress {
    open spec fn obeys_partial_cmp_spec() -> bool {
        true
    }

    open spec fn partial_cmp_spec(&self, other: &Self) -> Option<Ordering> {
        if self@ == other@ {
            Some(Ordering::Equal)
        } else if precedes(self@, other@) {
            Some(Ordering::Less)
        } else {
            Some(Ordering::Greater)
        }
    }
}

impl MACAddress {
    /// The bytes of the broadcast address: six times `0xff`.
    pub open spec fn broadcast_bytes() -> Seq<u8> {
        Seq::new(6, |i: int| 0xffu8)
    }

    /// The broadcast address.
    #[allow(non_snake_case)]
    pub fn BROADCAST() -> (r: MACAddress)
        ensures
            r@ == MACAddress::broadcast_bytes(),
    {
        let r = MACAddress([0xff, 0xff, 0xff, 0xff, 0xff, 0xff]);
        assert(r@ =~= MACAddress::broadcast_bytes());
        r
    }

    pub fn new(addr: [u8; 6]) -> (r: MACAddress)
        ensures
            r.0 == addr,
    {
        MACAddress(addr)
    }

    /// The address made of the six bytes of `data`.
    pub fn from_bytes(data: &[u8]) -> (r: MACAddress)
        requires
            data.len() == 6,
        ensures
            r@ == data@,
    {
        let r = MACAddress([data[0], data[1], data[2], data[3], data[4], data[5]]);
        assert(r@ =~= data@);
        r
    }

    pub fn as_bytes(&self) -> (r: &[u8])
        ensures
            r@ == self@,
    {
        &self.0
    }

    pub fn is_broadcast(&self) -> (r: bool)
        ensures
            r == (self@ == MACAddress::broadcast_bytes()),
    {
        *self == MACAddress::BROADCAST()
    }
}

/// The destination address field of a frame.
pub open spec fn dst_of(bytes: Seq<u8>) -> Seq<u8> {
    bytes.subrange(field::DST.start as int, field::DST.end as int)
}

/// The source address field of a frame.
pub open spec fn src_of(bytes: Seq<u8>) -> Seq<u8> {
    bytes.subrange(field::SRC.start as int, field::SRC.end as int)
}

/// The ethertype field of a frame, as a wire value.
pub open spec fn type_code_of(bytes: Seq<u8>) -> u16 {
    be16_at(bytes, field::TYP.start as int)
}

/// The payload of a frame: everything behind the header.
pub open spec fn payload_of(bytes: Seq<u8>) -> Seq<u8> {
    bytes.subrange(field::PAYLOAD as int, bytes.len() as int)
}

/// The header of a frame: everything before the payload.
pub open spec fn header_of(bytes: Seq<u8>) -> Seq<u8> {
    bytes.subrange(0, field::PAYLOAD as int)
}

/// An Ethernet frame held in a byte buffer. Every accessor reads or writes
/// the buffer itself; nothing is cached.
#[derive(Debug)]
pub struct Frame {
    buffer: Vec<u8>,
}

impl View for Frame {
    type V = Seq<u8>;

    closed spec fn view(&self) -> Seq<u8> {
        self.buffer@
    }
}

impl Frame {
    /// The buffer holds a whole header. Construction does not check this;
    /// `is_valid` does, and every accessor relies on it.
    pub open spec fn wf(&self) -> bool {
        self@.len() >= field::PAYLOAD
    }

    /// Wraps `buffer` without looking at it.
    pub fn new(buffer: Vec<u8>) -> (r: Frame)
        ensures
            r@ == buffer@,
    {
        Frame { buffer }
    }

    /// The length of the buffer.
    pub fn len(&self) -> (n: usize)
        ensures
            n == self@.len(),
    {
        self.buffer.len()
    }

    /// Succeeds exactly when the buffer holds a whole header.
    pub fn is_valid(&self) -> (r: Result<(), Error>)
        ensures
            self.wf() ==> r is Ok,
            !self.wf() ==> r == Err::<(), Error>(Error::of(ErrorKind::InvalidFormat)),
    {
        if self.buffer.len() < field::PAYLOAD {
            return Err(Error::from(ErrorKind::InvalidFormat));
        }
        Ok(())
    }

    /// Gives the buffer back.
    pub fn into_buffer(self) -> (buffer: Vec<u8>)
        ensures
            buffer@ == self@,
    {
        self.buffer
    }

    /// The whole buffer.
    pub fn as_bytes(&self) -> (bytes: &[u8])
        ensures
            bytes@ == self@,
    {
        self.buffer.as_slice()
    }

    pub fn dst(&self) -> (r: MACAddress)
        requires
            self.wf(),
        ensures
            r@ == dst_of(self@),
    {
        let buf = self.buffer.as_slice();
        MACAddress::from_bytes(slice_subrange(buf, field::DST.start, field::DST.end))
    }

    pub fn src(&self) -> (r: MACAddress)
        requires
            self.wf(),
        ensures
            r@ == src_of(self@),
    {
        let buf = self.buffer.as_slice();
        MACAddress::from_bytes(slice_subrange(buf, field::SRC.start, field::SRC.end))
    }

    pub fn ethertype(&self) -> (r: EtherType)
        requires
            self.wf(),
        ensures
            r == EtherType::of(type_code_of(self@)),
    {
        let buf = self.buffer.as_slice();
        let typ = get_u16(buf, field::TYP.start);
        EtherType::from(typ)
    }

    pub fn payload(&self) -> (r: &[u8])
        requires
            self.wf(),
        ensures
            r@ == payload_of(self@),
    {
        let buf = self.buffer.as_slice();
        slice_subrange(buf, field::PAYLOAD, buf.len())
    }

    /// The payload, for writing in place: what the caller leaves in the
    /// slice is the frame's payload afterwards, and the header stays.
    pub fn mut_payload(&mut self) -> (r: &mut [u8])
        requires
            old(self).wf(),
        ensures
            r@ == payload_of(old(self)@),
            final(self)@ == header_of(old(self)@) + final(r)@,
    {
        let (_, payload) = self.buffer.as_mut_slice().split_at_mut(field::PAYLOAD);
        payload
    }

    pub fn set_dst(&mut self, dst: MACAddress)
        requires
            old(self).wf(),
        ensures
            final(self)@ == splice(old(self)@, field::DST.start as int, dst@),
            final(self).wf(),
            dst_of(final(self)@) == dst@,
            src_of(final(self)@) == src_of(old(self)@),
            type_code_of(final(self)@) == type_code_of(old(self)@),
            payload_of(final(self)@) == payload_of(old(self)@),
    {
        proof {
            lemma_field_written(self@, field::DST.start as int, dst@);
        }
        put_bytes(&mut self.buffer, field::DST.start, dst.as_bytes());
    }

    pub fn set_src(&mut self, src: MACAddress)
        requires
            old(self).wf(),
        ensures
            final(self)@ == splice(old(self)@, field::SRC.start as int, src@),
            final(self).wf(),
            src_of(final(self)@) == src@,
            dst_of(final(self)@) == dst_of(old(self)@),
            type_code_of(final(self)@) == type_code_of(old(self)@),
            payload_of(final(self)@) == payload_of(old(self)@),
    {
        proof {
            lemma_field_written(self@, field::SRC.start as int, src@);
        }
        put_bytes(&mut self.buffer, field::SRC.start, src.as_bytes());
    }

    pub fn set_type(&mut self, typ: EtherType)
        requires
            old(self).wf(),
        ensures
            final(self)@ == with_be16(old(self)@, field::TYP.start as int, typ.code()),
            final(self).wf(),
            EtherType::of(type_code_of(final(self)@)) == typ,
            dst_of(final(self)@) == dst_of(old(self)@),
            src_of(final(self)@) == src_of(old(self)@),
            payload_of(final(self)@) == payload_of(old(self)@),
    {
        proof {
            let code = typ.code();
            lemma_with_be16(self@, field::TYP.start as int, code);
            lemma_field_written(
                self@,
                field::TYP.start as int,
                seq![hi_byte(code), lo_byte(code)],
            );
        }
        put_u16(&mut self.buffer, field::TYP.start, typ.into());
    }

    /// Overwrites the payload. `payload` must be exactly as long as the
    /// frame's payload region.
    pub fn set_payload(&mut self, payload: &[u8])
        requires
            old(self).wf(),
            payload.len() == old(self)@.len() - field::PAYLOAD,
        ensures
            final(self)@ == splice(old(self)@, field::PAYLOAD as int, payload@),
            final(self)@ == header_of(old(self)@) + payload@,
            final(self).wf(),
            payload_of(final(self)@) == payload@,
            dst_of(final(self)@) == dst_of(old(self)@),
            src_of(final(self)@) == src_of(old(self)@),
            type_code_of(final(self)@) == type_code_of(old(self)@),
    {
        proof {
            lemma_field_written(self@, field::PAYLOAD as int, payload@);
            assert(splice(self@, field::PAYLOAD as int, payload@) =~= header_of(self@) + payload@);
        }
        put_bytes(&mut self.buffer, field::PAYLOAD, payload);
    }
}

/// Overwriting one field of a frame changes that field and no other.
pub proof fn lemma_field_written(bytes: Seq<u8>, at: int, value: Seq<u8>)
    requires
        bytes.len() >= field::PAYLOAD,
        at == field::DST.start && value.len() == 6 || at == field::SRC.start && value.len() == 6
            || at == field::TYP.start && value.len() == 2 || at == field::PAYLOAD && value.len()
            == bytes.len() - field::PAYLOAD,
    ensures
        ({
            let after = splice(bytes, at, value);
            &&& after.len() == bytes.len()
            &&& dst_of(after) == if at == field::DST.start { value } else { dst_of(bytes) }
            &&& src_of(after) == if at == field::SRC.start { value } else { src_of(bytes) }
            &&& type_code_of(after) == if at == field::TYP.start {
                be16_at(value, 0)
            } else {
                type_code_of(bytes)
            }
            &&& payload_of(after) == if at == field::PAYLOAD { value } else { payload_of(bytes) }
        }),
{
    let after = splice(bytes, at, value);
    lemma_splice(bytes, at, value);
    assert(dst_of(after) =~= if at == field::DST.start { value } else { dst_of(bytes) });
    assert(src_of(after) =~= if at == field::SRC.start { value } else { src_of(bytes) });
    assert(payload_of(after) =~= if at == field::PAYLOAD { value } else { payload_of(bytes) });
}

} // verus!
