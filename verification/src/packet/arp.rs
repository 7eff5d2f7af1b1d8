//! ARP packets: a prefix of eight bytes that names the hardware and the
//! protocol, declares how long their addresses are and gives the operation,
//! followed by the sender's and the target's hardware and protocol addresses.

use crate::packet::error::{Error, ErrorKind};
use crate::packet::ethernet::EtherType;
use crate::packet::wire::{
    be16_at, get_u16, hi_byte, lemma_be16_of_bytes, lemma_splice, lemma_with_be16, lo_byte,
    put_bytes, put_u16, splice, with_be16,
};
use vstd::prelude::*;
use vstd::slice::slice_subrange;
use vstd::std_specs::convert::FromSpecImpl;

pub mod field;

verus! {

/// The protocol whose addresses an ARP packet resolves.
pub type ProtocolType = EtherType;

/// The kind of link whose addresses an ARP packet carries.
#[derive(Debug, PartialEq, Eq, Structural, PartialOrd, Ord, Clone, Copy)]
pub enum HardwareType {
    Ethernet,
    Unknown,
}

impl HardwareType {
    /// The type that the wire value `code` stands for.
    pub open spec fn of(code: u16) -> HardwareType {
        if code == 1 {
            HardwareType::Ethernet
        } else {
            HardwareType::Unknown
        }
    }

    /// The wire value that is written for this type.
    pub open spec fn code(self) -> u16 {
        match self {
            HardwareType::Ethernet => 1,
            HardwareType::Unknown => 0,
        }
    }

    /// The length in bytes of an address of this hardware: six for Ethernet,
    /// none for hardware whose addresses this library does not handle.
    pub open spec fn spec_addr_len(&self) -> usize {
        match self {
            HardwareType::Ethernet => 6,
            HardwareType::Unknown => 0,
        }
    }

    /// The length in bytes of an address of this hardware.
    #[verifier::when_used_as_spec(spec_addr_len)]
    pub fn addr_len(&self) -> (n: usize)
        ensures
            n == self.spec_addr_len(),
    {
        match self {
            HardwareType::Ethernet => 6,
            HardwareType::Unknown => 0,
        }
    }

    /// Writing a type and reading the value back gives the same type.
    pub proof fn lemma_code_roundtrip(typ: HardwareType)
        ensures
            HardwareType::of(typ.code()) == typ,
    {
    }
}

impl From<u16> for HardwareType {
    fn from(typ: u16) -> (r: HardwareType) {
        match typ {
            1 => HardwareType::Ethernet,
            _ => HardwareType::Unknown,
        }
    }
}

impl FromSpecImpl<u16> for HardwareType {
    open spec fn obeys_from_spec() -> bool {
        true
    }

    open spec fn from_spec(typ: u16) -> HardwareType {
        HardwareType::of(typ)
    }
}

impl From<HardwareType> for u16 {
    fn from(typ: HardwareType) -> (r: u16) {
        match typ {
            HardwareType::Ethernet => 1,
            HardwareType::Unknown => 0,
        }
    }
}

impl FromSpecImpl<HardwareType> for u16 {
    open spec fn obeys_from_spec() -> bool {
        true
    }

    open spec fn from_spec(typ: HardwareType) -> u16 {
        typ.code()
    }
}

/// What an ARP packet asks or answers.
#[derive(Debug, PartialEq, Eq, Structural, PartialOrd, Ord, Clone, Copy)]
pub enum Operation {
    Request,
    Reply,
    Unknown,
}

impl Operation {
    /// The operation that the wire value `code` stands for.
    pub open spec fn of(code: u16) -> Operation {
        if code == 1 {
            Operation::Request
        } else if code == 2 {
            Operation::Reply
        } else {
            Operation::Unknown
        }
    }

    /// The wire value that is written for this operation.
    pub open spec fn code(self) -> u16 {
        match self {
            Operation::Request => 1,
            Operation::Reply => 2,
            Operation::Unknown => 0,
        }
    }

    /// Writing an operation and reading the value back gives the same
    /// operation.
    pub proof fn lemma_code_roundtrip(op: Operation)
        ensures
            Operation::of(op.code()) == op,
    {
    }
}

impl From<u16> for Operation {
    fn from(op: u16) -> (r: Operation) {
        match op {
            1 => Operation::Request,
            2 => Operation::Reply,
            _ => Operation::Unknown,
        }
    }
}

impl FromSpecImpl<u16> for Operation {
    open spec fn obeys_from_spec() -> bool {
        true
    }

    open spec fn from_spec(op: u16) -> Operation {
        Operation::of(op)
    }
}

impl From<Operation> for u16 {
    fn from(op: Operation) -> (r: u16) {
        match op {
            Operation::Request => 1,
            Operation::Reply => 2,
            Operation::Unknown => 0,
        }
    }
}

impl FromSpecImpl<Operation> for u16 {
    open spec fn obeys_from_spec() -> bool {
        true
    }

    open spec fn from_spec(op: Operation) -> u16 {
        op.code()
    }
}

/// The hardware type field of the packet `bytes`, as a wire value.
pub open spec fn htype_code_of(bytes: Seq<u8>) -> u16 {
    be16_at(bytes, field::HTYPE.start as int)
}

/// The protocol type field of the packet `bytes`, as a wire value.
pub open spec fn ptype_code_of(bytes: Seq<u8>) -> u16 {
    be16_at(bytes, field::PTYPE.start as int)
}

/// The length of a hardware address that the packet `bytes` declares.
pub open spec fn hlen_of(bytes: Seq<u8>) -> int {
    bytes[field::HLEN as int] as int
}

/// The length of a protocol address that the packet `bytes` declares.
pub open spec fn plen_of(bytes: Seq<u8>) -> int {
    bytes[field::PLEN as int] as int
}

/// The operation field of the packet `bytes`, as a wire value.
pub open spec fn oper_code_of(bytes: Seq<u8>) -> u16 {
    be16_at(bytes, field::OPER.start as int)
}

/// The fixed prefix of the packet `bytes`: types, address lengths and
/// operation.
pub open spec fn prefix_of(bytes: Seq<u8>) -> Seq<u8> {
    bytes.subrange(0, field::OPER.end as int)
}

/// The sender's hardware address.
pub open spec fn sha_of(bytes: Seq<u8>) -> Seq<u8> {
    bytes.subrange(field::OPER.end as int, field::sha_end(hlen_of(bytes), plen_of(bytes)))
}

/// The sender's protocol address.
pub open spec fn spa_of(bytes: Seq<u8>) -> Seq<u8> {
    bytes.subrange(
        field::sha_end(hlen_of(bytes), plen_of(bytes)),
        field::spa_end(hlen_of(bytes), plen_of(bytes)),
    )
}

/// The target's hardware address.
pub open spec fn tha_of(bytes: Seq<u8>) -> Seq<u8> {
    bytes.subrange(
        field::spa_end(hlen_of(bytes), plen_of(bytes)),
        field::tha_end(hlen_of(bytes), plen_of(bytes)),
    )
}

/// The target's protocol address.
pub open spec fn tpa_of(bytes: Seq<u8>) -> Seq<u8> {
    bytes.subrange(
        field::tha_end(hlen_of(bytes), plen_of(bytes)),
        field::tpa_end(hlen_of(bytes), plen_of(bytes)),
    )
}

/// Whether `bytes` is a whole ARP packet: it holds the prefix and the four
/// addresses of the lengths that the prefix declares.
pub open spec fn valid(bytes: Seq<u8>) -> bool {
    &&& bytes.len() >= field::OPER.end
    &&& bytes.len() >= field::tpa_end(hlen_of(bytes), plen_of(bytes))
}

/// What construction makes of `bytes`: a whole packet is taken as it is,
/// anything else is refused as badly formed.
pub open spec fn parse(bytes: Seq<u8>) -> Result<Seq<u8>, ErrorKind> {
    if valid(bytes) {
        Ok(bytes)
    } else {
        Err(ErrorKind::InvalidFormat)
    }
}

/// The packet that `Packet::with_type` builds: types and address lengths
/// filled in, everything else zero.
pub open spec fn typed_bytes(htype: HardwareType, ptype: ProtocolType) -> Seq<u8> {
    let prefix = seq![
        hi_byte(htype.code()),
        lo_byte(htype.code()),
        hi_byte(ptype.code()),
        lo_byte(ptype.code()),
        htype.spec_addr_len() as u8,
        ptype.spec_addr_len() as u8,
        0u8,
        0u8,
    ];
    let addresses = Seq::new(
        (2 * (htype.spec_addr_len() + ptype.spec_addr_len())) as nat,
        |i: int| 0u8,
    );
    prefix + addresses
}

/// Overwriting one address of a packet changes that address and nothing
/// else: not the prefix, and none of the other three addresses.
pub proof fn lemma_address_written(bytes: Seq<u8>, which: int, value: Seq<u8>)
    requires
        valid(bytes),
        0 <= which < 4,
        value.len() == if which % 2 == 0 { hlen_of(bytes) } else { plen_of(bytes) },
    ensures
        ({
            let (h, p) = (hlen_of(bytes), plen_of(bytes));
            let at = if which == 0 {
                field::OPER.end as int
            } else if which == 1 {
                field::sha_end(h, p)
            } else if which == 2 {
                field::spa_end(h, p)
            } else {
                field::tha_end(h, p)
            };
            let after = splice(bytes, at, value);
            &&& valid(after)
            &&& after.len() == bytes.len()
            &&& prefix_of(after) == prefix_of(bytes)
            &&& sha_of(after) == if which == 0 { value } else { sha_of(bytes) }
            &&& spa_of(after) == if which == 1 { value } else { spa_of(bytes) }
            &&& tha_of(after) == if which == 2 { value } else { tha_of(bytes) }
            &&& tpa_of(after) == if which == 3 { value } else { tpa_of(bytes) }
        }),
{
    let (h, p) = (hlen_of(bytes), plen_of(bytes));
    let at = if which == 0 {
        field::OPER.end as int
    } else if which == 1 {
        field::sha_end(h, p)
    } else if which == 2 {
        field::spa_end(h, p)
    } else {
        field::tha_end(h, p)
    };
    let after = splice(bytes, at, value);
    lemma_splice(bytes, at, value);
    assert(prefix_of(after) =~= prefix_of(bytes));
    assert(sha_of(after) =~= if which == 0 { value } else { sha_of(bytes) });
    assert(spa_of(after) =~= if which == 1 { value } else { spa_of(bytes) });
    assert(tha_of(after) =~= if which == 2 { value } else { tha_of(bytes) });
    assert(tpa_of(after) =~= if which == 3 { value } else { tpa_of(bytes) });
}

/// The bytes of a packet parse to the same packet again, so every accessor
/// returns after parsing what it returned before.
pub proof fn lemma_reparse(p: Packet)
    requires
        p.wf(),
    ensures
        parse(p@) == Ok::<Seq<u8>, ErrorKind>(p@),
{
}

/// What `Packet::with_type` builds is a whole packet of exactly the length
/// that its addresses need, and it declares the types and address lengths
/// that it was built for.
pub proof fn lemma_typed_bytes(htype: HardwareType, ptype: ProtocolType)
    ensures
        ({
            let bytes = typed_bytes(htype, ptype);
            &&& parse(bytes) == Ok::<Seq<u8>, ErrorKind>(bytes)
            &&& bytes.len() == field::tpa_end(hlen_of(bytes), plen_of(bytes))
            &&& HardwareType::of(htype_code_of(bytes)) == htype
            &&& EtherType::of(ptype_code_of(bytes)) == ptype
            &&& hlen_of(bytes) == htype.spec_addr_len()
            &&& plen_of(bytes) == ptype.spec_addr_len()
            &&& oper_code_of(bytes) == 0
            &&& forall|k: int| field::OPER.end <= k < bytes.len() ==> bytes[k] == 0
        }),
{
    lemma_be16_of_bytes(htype.code());
    lemma_be16_of_bytes(ptype.code());
}

/// An ARP packet held in a byte buffer. Every accessor reads or writes the
/// buffer itself; nothing is cached, and the bounds of the addresses are
/// worked out anew from the declared lengths on every call.
#[derive(Debug, PartialEq, Eq, PartialOrd, Ord)]
pub struct Packet {
    buffer: Vec<u8>,
}

impl View for Packet {
    type V = Seq<u8>;

    closed spec fn view(&self) -> Seq<u8> {
        self.buffer@
    }
}

impl Packet {
    /// The buffer is a whole ARP packet. Construction establishes this and
    /// every method keeps it.
    pub open spec fn wf(&self) -> bool {
        valid(self@)
    }

    /// Wraps `buffer` if it is a whole ARP packet.
    pub fn new(buffer: Vec<u8>) -> (r: Result<Packet, Error>)
        ensures
            match parse(buffer@) {
                Ok(bytes) => r is Ok && r->Ok_0@ == bytes && r->Ok_0.wf(),
                Err(kind) => r is Err && r->Err_0 == Error::of(kind),
            },
    {
        let p = Packet { buffer };
        match p.is_valid() {
            Ok(()) => Ok(p),
            Err(e) => Err(e),
        }
    }

    /// The length of the buffer.
    pub fn len(&self) -> (n: usize)
        ensures
            n == self@.len(),
    {
        self.buffer.len()
    }

    /// Succeeds exactly when the buffer is a whole ARP packet.
    pub fn is_valid(&self) -> (r: Result<(), Error>)
        ensures
            valid(self@) ==> r is Ok,
            !valid(self@) ==> r == Err::<(), Error>(Error::of(ErrorKind::InvalidFormat)),
    {
        let l = self.len();
        if l < field::OPER.end {
            return Err(Error::from(ErrorKind::InvalidFormat));
        }
        let hlen = self.buffer[field::HLEN] as usize;
        let plen = self.buffer[field::PLEN] as usize;
        if l < field::TPA(hlen, plen).end {
            return Err(Error::from(ErrorKind::InvalidFormat));
        }
        Ok(())
    }

    /// Gives the buffer back.
    pub fn into_buffer(self) -> (buffer: Vec<u8>)
        ensures
            buffer@ == self@,
    {
        self.buffer
    }

    /// The whole buffer.
    pub fn as_bytes(&self) -> (bytes: &[u8])
        ensures
            bytes@ == self@,
    {
        self.buffer.as_slice()
    }

    pub fn htype(&self) -> (r: HardwareType)
        requires
            self.wf(),
        ensures
            r == HardwareType::of(htype_code_of(self@)),
    {
        let buf = self.buffer.as_slice();
        let typ = get_u16(buf, field::HTYPE.start);
        HardwareType::from(typ)
    }

    pub fn ptype(&self) -> (r: ProtocolType)
        requires
            self.wf(),
        ensures
            r == EtherType::of(ptype_code_of(self@)),
    {
        let buf = self.buffer.as_slice();
        let typ = get_u16(buf, field::PTYPE.start);
        ProtocolType::from(typ)
    }

    pub fn hlen(&self) -> (r: usize)
        requires
            self.wf(),
        ensures
            r == hlen_of(self@),
    {
        let buf = self.buffer.as_slice();
        buf[field::HLEN] as usize
    }

    pub fn plen(&self) -> (r: usize)
        requires
            self.wf(),
        ensures
            r == plen_of(self@),
    {
        let buf = self.buffer.as_slice();
        buf[field::PLEN] as usize
    }

    pub fn operation(&self) -> (r: Operation)
        requires
            self.wf(),
        ensures
            r == Operation::of(oper_code_of(self@)),
    {
        let buf = self.buffer.as_slice();
        let op = get_u16(buf, field::OPER.start);
        Operation::from(op)
    }

    pub fn source_hardware_addr(&self) -> (r: &[u8])
        requires
            self.wf(),
        ensures
            r@ == sha_of(self@),
    {
        let buf = self.buffer.as_slice();
        let range = field::SHA(self.hlen(), self.plen());
        slice_subrange(buf, range.start, range.end)
    }

    pub fn source_protocol_addr(&self) -> (r: &[u8])
        requires
            self.wf(),
        ensures
            r@ == spa_of(self@),
    {
        let buf = self.buffer.as_slice();
        let range = field::SPA(self.hlen(), self.plen());
        slice_subrange(buf, range.start, range.end)
    }

    pub fn target_hardware_addr(&self) -> (r: &[u8])
        requires
            self.wf(),
        ensures
            r@ == tha_of(self@),
    {
        let buf = self.buffer.as_slice();
        let range = field::THA(self.hlen(), self.plen());
        slice_subrange(buf, range.start, range.end)
    }

    pub fn target_protocol_addr(&self) -> (r: &[u8])
        requires
            self.wf(),
        ensures
            r@ == tpa_of(self@),
    {
        let buf = self.buffer.as_slice();
        let range = field::TPA(self.hlen(), self.plen());
        slice_subrange(buf, range.start, range.end)
    }

    /// Builds a packet for the given hardware and protocol: the two types
    /// and the lengths of their addresses are filled in, the operation and
    /// the four addresses are zero.
    pub fn with_type(htype: HardwareType, ptype: ProtocolType) -> (r: Result<Packet, Error>)
        ensures
            r is Ok,
            r->Ok_0.wf(),
            r->Ok_0@ == typed_bytes(htype, ptype),
            HardwareType::of(htype_code_of(r->Ok_0@)) == htype,
            EtherType::of(ptype_code_of(r->Ok_0@)) == ptype,
            hlen_of(r->Ok_0@) == htype.spec_addr_len(),
            plen_of(r->Ok_0@) == ptype.spec_addr_len(),
            r->Ok_0@.len() == field::tpa_end(
                htype.spec_addr_len() as int,
                ptype.spec_addr_len() as int,
            ),
    {
        let hlen = htype.addr_len();
        let plen = ptype.addr_len();
        let mut buf = vec![0u8; field::OPER.end + 2 * (hlen + plen)];
        buf[field::HLEN] = hlen as u8;
        buf[field::PLEN] = plen as u8;
        put_u16(&mut buf, field::HTYPE.start, htype.into());
        put_u16(&mut buf, field::PTYPE.start, ptype.into());
        proof {
            assert(buf@ =~= typed_bytes(htype, ptype));
            lemma_typed_bytes(htype, ptype);
        }
        Packet::new(buf)
    }

    pub fn set_op(&mut self, op: Operation)
        requires
            old(self).wf(),
        ensures
            final(self)@ == with_be16(old(self)@, field::OPER.start as int, op.code()),
            final(self).wf(),
            Operation::of(oper_code_of(final(self)@)) == op,
            htype_code_of(final(self)@) == htype_code_of(old(self)@),
            ptype_code_of(final(self)@) == ptype_code_of(old(self)@),
            hlen_of(final(self)@) == hlen_of(old(self)@),
            plen_of(final(self)@) == plen_of(old(self)@),
            sha_of(final(self)@) == sha_of(old(self)@),
            spa_of(final(self)@) == spa_of(old(self)@),
            tha_of(final(self)@) == tha_of(old(self)@),
            tpa_of(final(self)@) == tpa_of(old(self)@),
    {
        proof {
            let after = with_be16(self@, field::OPER.start as int, op.code());
            lemma_with_be16(self@, field::OPER.start as int, op.code());
            assert(sha_of(after) =~= sha_of(self@));
            assert(spa_of(after) =~= spa_of(self@));
            assert(tha_of(after) =~= tha_of(self@));
            assert(tpa_of(after) =~= tpa_of(self@));
        }
        put_u16(&mut self.buffer, field::OPER.start, op.into());
    }

    /// Overwrites the sender's hardware address. `src` must be exactly as
    /// long as the packet declares a hardware address to be.
    pub fn set_source_hardware_addr(&mut self, src: &[u8])
        requires
            old(self).wf(),
            src.len() == hlen_of(old(self)@),
        ensures
            final(self)@ == splice(old(self)@, field::OPER.end as int, src@),
            final(self).wf(),
            sha_of(final(self)@) == src@,
            spa_of(final(self)@) == spa_of(old(self)@),
            tha_of(final(self)@) == tha_of(old(self)@),
            tpa_of(final(self)@) == tpa_of(old(self)@),
            prefix_of(final(self)@) == prefix_of(old(self)@),
    {
        let (hlen, plen) = (self.hlen(), self.plen());
        proof {
            lemma_address_written(self@, 0, src@);
        }
        put_bytes(&mut self.buffer, field::SHA(hlen, plen).start, src);
    }

    /// Overwrites the sender's protocol address. `src` must be exactly as
    /// long as the packet declares a protocol address to be.
    pub fn set_source_protocol_addr(&mut self, src: &[u8])
        requires
            old(self).wf(),
            src.len() == plen_of(old(self)@),
        ensures
            final(self)@ == splice(
                old(self)@,
                field::sha_end(hlen_of(old(self)@), plen_of(old(self)@)),
                src@,
            ),
            final(self).wf(),
            spa_of(final(self)@) == src@,
            sha_of(final(self)@) == sha_of(old(self)@),
            tha_of(final(self)@) == tha_of(old(self)@),
            tpa_of(final(self)@) == tpa_of(old(self)@),
            prefix_of(final(self)@) == prefix_of(old(self)@),
    {
        let (hlen, plen) = (self.hlen(), self.plen());
        proof {
            lemma_address_written(self@, 1, src@);
        }
        put_bytes(&mut self.buffer, field::SPA(hlen, plen).start, src);
    }

    /// Overwrites the target's hardware address. `target` must be exactly as
    /// long as the packet declares a hardware address to be.
    pub fn set_target_hardware_addr(&mut self, target: &[u8])
        requires
            old(self).wf(),
            target.len() == hlen_of(old(self)@),
        ensures
            final(self)@ == splice(
                old(self)@,
                field::spa_end(hlen_of(old(self)@), plen_of(old(self)@)),
                target@,
            ),
            final(self).wf(),
            tha_of(final(self)@) == target@,
            sha_of(final(self)@) == sha_of(old(self)@),
            spa_of(final(self)@) == spa_of(old(self)@),
            tpa_of(final(self)@) == tpa_of(old(self)@),
            prefix_of(final(self)@) == prefix_of(old(self)@),
    {
        let (hlen, plen) = (self.hlen(), self.plen());
        proof {
            lemma_address_written(self@, 2, target@);
        }
        put_bytes(&mut self.buffer, field::THA(hlen, plen).start, target);
    }

    /// Overwrites the target's protocol address. `target` must be exactly as
    /// long as the packet declares a protocol address to be.
    pub fn set_target_protocol_addr(&mut self, target: &[u8])
        requires
            old(self).wf(),
            target.len() == plen_of(old(self)@),
        ensures
            final(self)@ == splice(
                old(self)@,
                field::tha_end(hlen_of(old(self)@), plen_of(old(self)@)),
                target@,
            ),
            final(self).wf(),
            tpa_of(final(self)@) == target@,
            sha_of(final(self)@) == sha_of(old(self)@),
            spa_of(final(self)@) == spa_of(old(self)@),
            tha_of(final(self)@) == tha_of(old(self)@),
            prefix_of(final(self)@) == prefix_of(old(self)@),
    {
        let (hlen, plen) = (self.hlen(), self.plen());
        proof {
            lemma_address_written(self@, 3, target@);
        }
        put_bytes(&mut self.buffer, field::TPA(hlen, plen).start, target);
    }
}

} // verus!
