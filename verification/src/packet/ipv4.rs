//! IPv4 packets: a header of at least 20 bytes that declares its own length
//! and the length of the whole packet, then options, then the payload.

use crate::packet::checksum::lemma_checksum_ignores_field;
use crate::packet::error::{Error, ErrorKind};
use crate::packet::ip_protocol::IpProtocol;
use crate::packet::wire::{
    be16_at, get_u16, lemma_splice, lemma_with_be16, precedes, put_bytes, put_u16, same_outside,
    splice, with_be16,
};
use std::cmp::Ordering;
use vstd::prelude::*;
use vstd::slice::{slice_subrange, slice_to_vec};
use vstd::std_specs::cmp::{PartialEqSpecImpl, PartialOrdSpecImpl};
use vstd::std_specs::convert::FromSpecImpl;

pub mod checksum;
pub mod field;

verus! {

/// An IPv4 address. Addresses compare byte by byte, the first byte weighing
/// most.
#[derive(Debug, Eq, Ord, Clone, Copy)]
pub struct IpAddress(pub [u8; 4]);

impl View for IpAddress {
    type V = Seq<u8>;

    open spec fn view(&self) -> Seq<u8> {
        self.0@
    }
}

impl PartialEq for IpAddress {
    fn eq(&self, other: &Self) -> (r: bool) {
        let r = self.0[0] == other.0[0] && self.0[1] == other.0[1] && self.0[2] == other.0[2]
            && self.0[3] == other.0[3];
        proof {
            if r {
                assert(self@ =~= other@);
            }
        }
        r
    }
}

impl PartialEqSpecImpl for IpAddress {
    open spec fn obeys_eq_spec() -> bool {
        true
    }

    open spec fn eq_spec(&self, other: &Self) -> bool {
        self@ == other@
    }
}

impl PartialOrd for IpAddress {
    fn partial_cmp(&self, other: &Self) -> (r: Option<Ordering>) {
        let mut i: usize = 0;
        while i < 4
            invariant
                i <= 4,
                forall|j: int| 0 <= j < i ==> self@[j] == other@[j],
            decreases 4 - i,
        {
            if self.0[i] < other.0[i] {
                return Some(Ordering::Less);
            }
            if self.0[i] > other.0[i] {
                return Some(Ordering::Greater);
            }
            i += 1;
        }
        assert(self@ =~= other@);
        Some(Ordering::Equal)
    }
}

impl PartialOrdSpecImpl for IpAddress {
    open spec fn obeys_partial_cmp_spec() -> bool {
        true
    }

    open spec fn partial_cmp_spec(&self, other: &Self) -> Option<Ordering> {
        if self@ == other@ {
            Some(Ordering::Equal)
        } else if precedes(self@, other@) {
            Some(Ordering::Less)
        } else {
            Some(Ordering::Greater)
        }
    }
}

impl IpAddress {
    /// The bytes of the broadcast address, 255.255.255.255.
    pub open spec fn broadcast_bytes() -> Seq<u8> {
        Seq::new(4, |i: int| 0xffu8)
    }

    /// The broadcast address.
    #[allow(non_snake_case)]
    pub fn BROADCAST() -> (r: IpAddress)
        ensures
            r@ == IpAddress::broadcast_bytes(),
    {
        let r = IpAddress([0xff, 0xff, 0xff, 0xff]);
        assert(r@ =~= IpAddress::broadcast_bytes());
        r
    }

    /// The address `a.b.c.d`.
    pub fn new(a: u8, b: u8, c: u8, d: u8) -> (r: IpAddress)
        ensures
            r@ == seq![a, b, c, d],
    {
        let r = IpAddress([a, b, c, d]);
        assert(r@ =~= seq![a, b, c, d]);
        r
    }

    /// The address made of the four bytes of `addr`.
    pub fn from_bytes(addr: &[u8]) -> (r: IpAddress)
        requires
            addr.len() == 4,
        ensures
            r@ == addr@,
    {
        let r = IpAddress([addr[0], addr[1], addr[2], addr[3]]);
        assert(r@ =~= addr@);
        r
    }

    pub fn as_bytes(&self) -> (r: &[u8])
        ensures
            r@ == self@,
    {
        &self.0
    }

    pub fn is_broadcast(&self) -> (r: bool)
        ensures
            r == (self@ == IpAddress::broadcast_bytes()),
    {
        *self == IpAddress::BROADCAST()
    }

    /// Whether the address lies in 127.0.0.0/8.
    pub fn is_loopback(&self) -> (r: bool)
        ensures
            r == (self@[0] == 127),
    {
        self.0[0] == 127
    }
}

/// The version of the Internet Protocol that a header declares.
#[derive(Debug, PartialEq, Eq, Structural, PartialOrd, Ord, Clone, Copy)]
pub enum Version {
    Ipv4,
    Unknown,
}

impl Version {
    /// The version that the wire value `code` stands for.
    pub open spec fn of(code: u8) -> Version {
        if code == 4 {
            Version::Ipv4
        } else {
            Version::Unknown
        }
    }

    /// The wire value that is written for this version.
    pub open spec fn code(self) -> u8 {
        match self {
            Version::Ipv4 => 4,
            Version::Unknown => 0,
        }
    }

    /// Writing a version and reading the value back gives the same version.
    pub proof fn lemma_code_roundtrip(v: Version)
        ensures
            Version::of(v.code()) == v,
    {
    }
}

impl From<u8> for Version {
    fn from(v: u8) -> (r: Version) {
        match v {
            4 => Version::Ipv4,
            _ => Version::Unknown,
        }
    }
}

impl FromSpecImpl<u8> for Version {
    open spec fn obeys_from_spec() -> bool {
        true
    }

    open spec fn from_spec(v: u8) -> Version {
        Version::of(v)
    }
}

impl From<Version> for u8 {
    fn from(v: Version) -> (r: u8) {
        match v {
            Version::Ipv4 => 4,
            Version::Unknown => 0,
        }
    }
}

impl FromSpecImpl<Version> for u8 {
    open spec fn obeys_from_spec() -> bool {
        true
    }

    open spec fn from_spec(v: Version) -> u8 {
        v.code()
    }
}

/// The fragmentation flags of a header, read as one three-bit number.
#[derive(Debug, PartialEq, Eq, Structural, PartialOrd, Ord, Clone, Copy)]
pub enum Flag {
    NoMore,
    DontFragment,
    MoreFragment,
    Unknown,
}

impl Flag {
    /// The flag that the three-bit value `code` stands for.
    pub open spec fn of(code: u16) -> Flag {
        if code == 0 {
            Flag::NoMore
        } else if code == 2 {
            Flag::DontFragment
        } else if code == 4 {
            Flag::MoreFragment
        } else {
            Flag::Unknown
        }
    }

    /// The three-bit value that is written for this flag. The value written
    /// for `Unknown` is one that no other flag has.
    pub open spec fn code(self) -> u16 {
        match self {
            Flag::NoMore => 0,
            Flag::DontFragment => 2,
            Flag::MoreFragment => 4,
            Flag::Unknown => 1,
        }
    }

    /// Writing a flag and reading the value back gives the same flag.
    pub proof fn lemma_code_roundtrip(f: Flag)
        ensures
            Flag::of(f.code()) == f,
    {
    }
}

impl From<u16> for Flag {
    fn from(f: u16) -> (r: Flag) {
        match f {
            0 => Flag::NoMore,
            2 => Flag::DontFragment,
            4 => Flag::MoreFragment,
            _ => Flag::Unknown,
        }
    }
}

impl FromSpecImpl<u16> for Flag {
    open spec fn obeys_from_spec() -> bool {
        true
    }

    open spec fn from_spec(f: u16) -> Flag {
        Flag::of(f)
    }
}

impl From<Flag> for u16 {
    fn from(f: Flag) -> (r: u16) {
        match f {
            Flag::NoMore => 0,
            Flag::DontFragment => 2,
            Flag::MoreFragment => 4,
            Flag::Unknown => 1,
        }
    }
}

impl FromSpecImpl<Flag> for u16 {
    open spec fn obeys_from_spec() -> bool {
        true
    }

    open spec fn from_spec(f: Flag) -> u16 {
        f.code()
    }
}

/// The version field of the header `bytes`, as a wire value.
pub open spec fn version_code_of(bytes: Seq<u8>) -> u8 {
    bytes[field::VERSION_IHL as int] / 16
}

/// The length of the header `bytes` in 32-bit words, as the header declares
/// it.
pub open spec fn ihl_of(bytes: Seq<u8>) -> int {
    (bytes[field::VERSION_IHL as int] % 16) as int
}

/// The offset at which the header `bytes` ends, as the header declares it.
pub open spec fn header_end_of(bytes: Seq<u8>) -> int {
    field::header_end(ihl_of(bytes))
}

/// The type-of-service field.
pub open spec fn tos_of(bytes: Seq<u8>) -> u8 {
    bytes[field::TOS as int]
}

/// The total length of the packet `bytes` in bytes, as the header declares
/// it.
pub open spec fn total_length_of(bytes: Seq<u8>) -> int {
    be16_at(bytes, field::LENGTH.start as int) as int
}

/// The identification field.
pub open spec fn identification_of(bytes: Seq<u8>) -> u16 {
    be16_at(bytes, field::IDENT.start as int)
}

/// The 16-bit field that holds the flags and the fragment offset.
pub open spec fn flag_offset_of(bytes: Seq<u8>) -> u16 {
    be16_at(bytes, field::FLAG_OFFSET.start as int)
}

/// The flags as a three-bit value: the upper three bits of their field.
pub open spec fn flag_code_of(bytes: Seq<u8>) -> u16 {
    flag_offset_of(bytes) / 0x2000
}

/// The fragment offset in units of eight bytes: the lower thirteen bits of
/// its field.
pub open spec fn fragment_of(bytes: Seq<u8>) -> u16 {
    flag_offset_of(bytes) % 0x2000
}

/// The time-to-live field.
pub open spec fn ttl_of(bytes: Seq<u8>) -> u8 {
    bytes[field::TTL as int]
}

/// The protocol field, as a wire value.
pub open spec fn protocol_code_of(bytes: Seq<u8>) -> u8 {
    bytes[field::PROTOCOL as int]
}

/// The checksum stored in the header `bytes`.
pub open spec fn stored_checksum_of(bytes: Seq<u8>) -> u16 {
    be16_at(bytes, field::CHECKSUM.start as int)
}

/// The source address field.
pub open spec fn source_of(bytes: Seq<u8>) -> Seq<u8> {
    bytes.subrange(field::SRC_ADDR.start as int, field::SRC_ADDR.end as int)
}

/// The destination address field.
pub open spec fn destination_of(bytes: Seq<u8>) -> Seq<u8> {
    bytes.subrange(field::DST_ADDR.start as int, field::DST_ADDR.end as int)
}

/// The header of the packet `bytes`: its first `ihl` words.
pub open spec fn header_of(bytes: Seq<u8>) -> Seq<u8> {
    bytes.subrange(0, header_end_of(bytes))
}

/// The options of the packet `bytes`: what the header holds behind the
/// fixed fields.
pub open spec fn option_of(bytes: Seq<u8>) -> Seq<u8> {
    bytes.subrange(field::DST_ADDR.end as int, header_end_of(bytes))
}

/// The payload of the packet `bytes`: from the end of the header to the
/// total length.
pub open spec fn payload_of(bytes: Seq<u8>) -> Seq<u8> {
    bytes.subrange(header_end_of(bytes), total_length_of(bytes))
}

/// The declared header lies inside the buffer.
pub open spec fn header_in_bounds(bytes: Seq<u8>) -> bool {
    header_end_of(bytes) <= bytes.len()
}

/// The declared header holds all fixed fields and lies inside the buffer.
pub open spec fn option_in_bounds(bytes: Seq<u8>) -> bool {
    field::DST_ADDR.end <= header_end_of(bytes) <= bytes.len()
}

/// The declared total length covers the declared header and lies inside the
/// buffer.
pub open spec fn payload_in_bounds(bytes: Seq<u8>) -> bool {
    header_end_of(bytes) <= total_length_of(bytes) <= bytes.len()
}

/// Whether `bytes` holds all fixed fields of a header.
pub open spec fn has_header(bytes: Seq<u8>) -> bool {
    bytes.len() >= field::DST_ADDR.end
}

/// What construction makes of `bytes`: a buffer that holds the fixed fields
/// is taken as it is, a shorter one is refused as badly formed.
pub open spec fn parse(bytes: Seq<u8>) -> Result<Seq<u8>, ErrorKind> {
    if has_header(bytes) {
        Ok(bytes)
    } else {
        Err(ErrorKind::InvalidFormat)
    }
}

/// Whether `bytes` is a consistent packet: the fixed fields are there, the
/// header is at least five words long, the total length covers the header,
/// and the buffer holds the total length.
pub open spec fn valid(bytes: Seq<u8>) -> bool {
    &&& has_header(bytes)
    &&& ihl_of(bytes) >= 5
    &&& payload_in_bounds(bytes)
}

/// The byte that holds version `code` and the header length of `byte`.
pub open spec fn with_version_bits(byte: u8, code: u8) -> u8 {
    (code * 16 + byte % 16) as u8
}

/// The byte that holds the version of `byte` and a header length of `words`.
pub open spec fn with_ihl_bits(byte: u8, words: int) -> u8 {
    ((byte / 16) * 16 + words) as u8
}

/// The field that holds flags `code` and the fragment offset of `word`.
pub open spec fn with_flag_bits(word: u16, code: u16) -> u16 {
    (code * 0x2000 + word % 0x2000) as u16
}

/// The field that holds the flags of `word` and a fragment offset of
/// `units` times eight bytes.
pub open spec fn with_fragment_bits(word: u16, units: int) -> u16 {
    ((word / 0x2000) * 0x2000 + units) as u16
}

proof fn lemma_byte_bits(b: u8)
    by (bit_vector)
    ensures
        b >> 4 == b / 16,
        b & 0x0f == b % 16,
        b & 0xf0 == (b / 16) * 16,
{
}

proof fn lemma_word_bits(w: u16)
    by (bit_vector)
    ensures
        w >> 13 == w / 0x2000,
        w & 0x1fff == w % 0x2000,
        w & 0xe000 == (w / 0x2000) * 0x2000,
        w >> 3 == w / 8,
{
}

proof fn lemma_flag_bits(w: u16, code: u16)
    by (bit_vector)
    requires
        code <= 4,
    ensures
        code << 13 == code * 0x2000,
        (w & 0x1fff) | (code << 13) == code * 0x2000 + w % 0x2000,
{
}

proof fn lemma_version_bits(code: u8)
    by (bit_vector)
    requires
        code <= 4,
    ensures
        code << 4 == code * 16,
{
}

/// The bytes of a packet parse to the same packet again, so every accessor
/// returns after parsing what it returned before.
pub proof fn lemma_reparse(p: Packet)
    requires
        p.wf(),
    ensures
        parse(p@) == Ok::<Seq<u8>, ErrorKind>(p@),
{
}

/// An IPv4 packet held in a byte buffer. Every accessor reads or writes the
/// buffer itself; nothing is cached, and the bounds of the options and of
/// the payload are worked out anew from the header on every call.
#[derive(Debug, PartialEq, Eq, PartialOrd, Ord)]
pub struct Packet {
    buffer: Vec<u8>,
}

impl View for Packet {
    type V = Seq<u8>;

    closed spec fn view(&self) -> Seq<u8> {
        self.buffer@
    }
}

impl Packet {
    /// The buffer holds all fixed fields of a header. Construction
    /// establishes this and every method keeps it.
    pub open spec fn wf(&self) -> bool {
        has_header(self@)
    }

    /// Wraps `buffer`, which must hold at least the fixed fields of a header.
    /// What the header declares is not checked here, so that a packet can be
    /// built field by field in a zeroed buffer; `is_valid` checks it.
    pub fn new(buffer: Vec<u8>) -> (r: Result<Packet, Error>)
        ensures
            match parse(buffer@) {
                Ok(bytes) => r is Ok && r->Ok_0@ == bytes && r->Ok_0.wf(),
                Err(kind) => r is Err && r->Err_0 == Error::of(kind),
            },
    {
        if buffer.len() < field::DST_ADDR.end {
            return Err(Error::from(ErrorKind::InvalidFormat));
        }
        Ok(Packet { buffer })
    }

    /// The length of the buffer.
    pub fn len(&self) -> (n: usize)
        ensures
            n == self@.len(),
    {
        self.buffer.len()
    }

    /// Succeeds exactly when the header is at least five words long, the
    /// total length covers the header, and the buffer holds the total
    /// length.
    pub fn is_valid(&self) -> (r: Result<(), Error>)
        requires
            self.wf(),
        ensures
            valid(self@) ==> r is Ok,
            !valid(self@) ==> r == Err::<(), Error>(Error::of(ErrorKind::InvalidFormat)),
    {
        let ihl = self.header_length();
        let length = self.length();
        if ihl < 5 || length < ihl * 4 || self.buffer.len() < length {
            return Err(Error::from(ErrorKind::InvalidFormat));
        }
        Ok(())
    }

    /// Gives the buffer back.
    pub fn into_buffer(self) -> (buffer: Vec<u8>)
        ensures
            buffer@ == self@,
    {
        self.buffer
    }

    /// The whole buffer.
    pub fn as_bytes(&self) -> (bytes: &[u8])
        ensures
            bytes@ == self@,
    {
        self.buffer.as_slice()
    }

    pub fn version(&self) -> (r: Version)
        requires
            self.wf(),
        ensures
            r == Version::of(version_code_of(self@)),
    {
        let b = self.buffer.as_slice();
        proof {
            lemma_byte_bits(b[field::VERSION_IHL as int]);
        }
        Version::from(b[field::VERSION_IHL] >> 4)
    }

    /// The length of the header in 32-bit words.
    pub fn header_length(&self) -> (r: usize)
        requires
            self.wf(),
        ensures
            r == ihl_of(self@),
            r <= 15,
    {
        let b = self.buffer.as_slice();
        proof {
            lemma_byte_bits(b[field::VERSION_IHL as int]);
        }
        (b[field::VERSION_IHL] & 0x0f) as usize
    }

    pub fn tos(&self) -> (r: u8)
        requires
            self.wf(),
        ensures
            r == tos_of(self@),
    {
        let b = self.buffer.as_slice();
        b[field::TOS]
    }

    /// The total length of the packet in bytes.
    pub fn length(&self) -> (r: usize)
        requires
            self.wf(),
        ensures
            r == total_length_of(self@),
    {
        let b = self.buffer.as_slice();
        let l = get_u16(b, field::LENGTH.start);
        l as usize
    }

    pub fn identification(&self) -> (r: u16)
        requires
            self.wf(),
        ensures
            r == identification_of(self@),
    {
        let b = self.buffer.as_slice();
        get_u16(b, field::IDENT.start)
    }

    pub fn flag(&self) -> (r: Flag)
        requires
            self.wf(),
        ensures
            r == Flag::of(flag_code_of(self@)),
    {
        let b = self.buffer.as_slice();
        let word = get_u16(b, field::FLAG_OFFSET.start);
        proof {
            lemma_word_bits(word);
        }
        Flag::from(word >> 13)
    }

    /// The fragment offset, in units of eight bytes.
    pub fn fragment(&self) -> (r: u16)
        requires
            self.wf(),
        ensures
            r == fragment_of(self@),
    {
        let b = self.buffer.as_slice();
        let word = get_u16(b, field::FLAG_OFFSET.start);
        proof {
            lemma_word_bits(word);
        }
        word & 0x1fff
    }

    pub fn ttl(&self) -> (r: u8)
        requires
            self.wf(),
        ensures
            r == ttl_of(self@),
    {
        let b = self.buffer.as_slice();
        b[field::TTL]
    }

    pub fn protocol(&self) -> (r: IpProtocol)
        requires
            self.wf(),
        ensures
            r == IpProtocol::of(protocol_code_of(self@)),
    {
        let b = self.buffer.as_slice();
        IpProtocol::from(b[field::PROTOCOL])
    }

    pub fn checksum(&self) -> (r: u16)
        requires
            self.wf(),
        ensures
            r == stored_checksum_of(self@),
    {
        let b = self.buffer.as_slice();
        get_u16(b, field::CHECKSUM.start)
    }

    /// Whether the stored checksum is the checksum of the header.
    pub fn verify_checksum(&self) -> (ok: bool)
        requires
            self.wf(),
            header_in_bounds(self@),
        ensures
            ok == (checksum::header_checksum(header_of(self@)) == stored_checksum_of(self@)),
    {
        let sum = self.checksum();
        checksum::calc(self.header()) == sum
    }

    pub fn source_addr(&self) -> (r: IpAddress)
        requires
            self.wf(),
        ensures
            r@ == source_of(self@),
    {
        let b = self.buffer.as_slice();
        IpAddress::from_bytes(slice_subrange(b, field::SRC_ADDR.start, field::SRC_ADDR.end))
    }

    pub fn destination_addr(&self) -> (r: IpAddress)
        requires
            self.wf(),
        ensures
            r@ == destination_of(self@),
    {
        let b = self.buffer.as_slice();
        IpAddress::from_bytes(slice_subrange(b, field::DST_ADDR.start, field::DST_ADDR.end))
    }

    pub fn option(&self) -> (r: Vec<u8>)
        requires
            self.wf(),
            option_in_bounds(self@),
        ensures
            r@ == option_of(self@),
    {
        let b = self.buffer.as_slice();
        let range = field::OPTION(self.header_length());
        slice_to_vec(slice_subrange(b, range.start, range.end))
    }

    pub fn header(&self) -> (r: &[u8])
        requires
            self.wf(),
            header_in_bounds(self@),
        ensures
            r@ == header_of(self@),
    {
        let b = self.buffer.as_slice();
        slice_subrange(b, 0, self.header_length() * 4)
    }

    pub fn payload(&self) -> (r: Vec<u8>)
        requires
            self.wf(),
            payload_in_bounds(self@),
        ensures
            r@ == payload_of(self@),
    {
        let b = self.buffer.as_slice();
        let range = field::PAYLOAD(self.header_length(), self.length());
        slice_to_vec(slice_subrange(b, range.start, range.end))
    }

    /// Stores `ver` in the upper four bits of the first byte and keeps the
    /// header length in the lower four.
    pub fn set_version(&mut self, ver: Version)
        requires
            old(self).wf(),
        ensures
            final(self)@ == old(self)@.update(
                field::VERSION_IHL as int,
                with_version_bits(old(self)@[field::VERSION_IHL as int], ver.code()),
            ),
            final(self).wf(),
            Version::of(version_code_of(final(self)@)) == ver,
            ihl_of(final(self)@) == ihl_of(old(self)@),
            same_outside(old(self)@, final(self)@, field::VERSION_IHL as int, field::TOS as int),
    {
        let v: u8 = ver.into();
        let byte = self.buffer[field::VERSION_IHL];
        proof {
            lemma_byte_bits(byte);
            lemma_version_bits(v);
        }
        self.buffer[field::VERSION_IHL] = (byte & 0x0f) + (v << 4);
    }

    /// Stores a header length of `ihl` bytes, as `ihl / 4` words, in the
    /// lower four bits of the first byte and keeps the version in the upper
    /// four. Four bits hold at most fifteen words.
    pub fn set_header_length(&mut self, ihl: usize)
        requires
            old(self).wf(),
            ihl / 4 <= 15,
        ensures
            final(self)@ == old(self)@.update(
                field::VERSION_IHL as int,
                with_ihl_bits(old(self)@[field::VERSION_IHL as int], ihl as int / 4),
            ),
            final(self).wf(),
            ihl_of(final(self)@) == ihl / 4,
            version_code_of(final(self)@) == version_code_of(old(self)@),
            same_outside(old(self)@, final(self)@, field::VERSION_IHL as int, field::TOS as int),
    {
        let byte = self.buffer[field::VERSION_IHL];
        proof {
            lemma_byte_bits(byte);
        }
        self.buffer[field::VERSION_IHL] = (byte & 0xf0) + (ihl as u8 / 4);
    }

    pub fn set_tos(&mut self, tos: u8)
        requires
            old(self).wf(),
        ensures
            final(self)@ == old(self)@.update(field::TOS as int, tos),
            final(self).wf(),
            tos_of(final(self)@) == tos,
            same_outside(old(self)@, final(self)@, field::TOS as int, field::LENGTH.start as int),
    {
        self.buffer[field::TOS] = tos;
    }

    /// Stores the total length of the packet in bytes. The field holds
    /// sixteen bits.
    pub fn set_length(&mut self, length: usize)
        requires
            old(self).wf(),
            length <= 0xffff,
        ensures
            final(self)@ == with_be16(old(self)@, field::LENGTH.start as int, length as u16),
            final(self).wf(),
            total_length_of(final(self)@) == length,
            same_outside(
                old(self)@,
                final(self)@,
                field::LENGTH.start as int,
                field::LENGTH.end as int,
            ),
    {
        proof {
            lemma_with_be16(self@, field::LENGTH.start as int, length as u16);
        }
        put_u16(&mut self.buffer, field::LENGTH.start, length as u16);
    }

    pub fn set_identification(&mut self, ident: u16)
        requires
            old(self).wf(),
        ensures
            final(self)@ == with_be16(old(self)@, field::IDENT.start as int, ident),
            final(self).wf(),
            identification_of(final(self)@) == ident,
            same_outside(
                old(self)@,
                final(self)@,
                field::IDENT.start as int,
                field::IDENT.end as int,
            ),
    {
        proof {
            lemma_with_be16(self@, field::IDENT.start as int, ident);
        }
        put_u16(&mut self.buffer, field::IDENT.start, ident);
    }

    /// Stores `flag` in the upper three bits of the flags field and keeps
    /// the fragment offset in the lower thirteen.
    pub fn set_flag(&mut self, flag: Flag)
        requires
            old(self).wf(),
        ensures
            final(self)@ == with_be16(
                old(self)@,
                field::FLAG_OFFSET.start as int,
                with_flag_bits(flag_offset_of(old(self)@), flag.code()),
            ),
            final(self).wf(),
            Flag::of(flag_code_of(final(self)@)) == flag,
            fragment_of(final(self)@) == fragment_of(old(self)@),
            same_outside(
                old(self)@,
                final(self)@,
                field::FLAG_OFFSET.start as int,
                field::FLAG_OFFSET.end as int,
            ),
    {
        let word = get_u16(self.buffer.as_slice(), field::FLAG_OFFSET.start);
        let code: u16 = flag.into();
        proof {
            lemma_flag_bits(word, code);
            lemma_with_be16(
                self@,
                field::FLAG_OFFSET.start as int,
                with_flag_bits(word, code),
            );
        }
        let f = (word & 0x1fff) | (code << 13);
        put_u16(&mut self.buffer, field::FLAG_OFFSET.start, f);
    }

    /// Stores a fragment offset of `offset` bytes, as `offset / 8` units, in
    /// the lower thirteen bits of the flags field and keeps the flags in the
    /// upper three.
    pub fn set_fragment_offset(&mut self, offset: u16)
        requires
            old(self).wf(),
        ensures
            final(self)@ == with_be16(
                old(self)@,
                field::FLAG_OFFSET.start as int,
                with_fragment_bits(flag_offset_of(old(self)@), offset as int / 8),
            ),
            final(self).wf(),
            fragment_of(final(self)@) == offset / 8,
            flag_code_of(final(self)@) == flag_code_of(old(self)@),
            same_outside(
                old(self)@,
                final(self)@,
                field::FLAG_OFFSET.start as int,
                field::FLAG_OFFSET.end as int,
            ),
    {
        let word = get_u16(self.buffer.as_slice(), field::FLAG_OFFSET.start);
        proof {
            lemma_word_bits(word);
            lemma_word_bits(offset);
            lemma_with_be16(
                self@,
                field::FLAG_OFFSET.start as int,
                with_fragment_bits(word, offset as int / 8),
            );
        }
        let f = (word & 0xe000) + (offset >> 3);
        put_u16(&mut self.buffer, field::FLAG_OFFSET.start, f);
    }

    pub fn set_ttl(&mut self, ttl: u8)
        requires
            old(self).wf(),
        ensures
            final(self)@ == old(self)@.update(field::TTL as int, ttl),
            final(self).wf(),
            ttl_of(final(self)@) == ttl,
            same_outside(old(self)@, final(self)@, field::TTL as int, field::PROTOCOL as int),
    {
        self.buffer[field::TTL] = ttl;
    }

    pub fn set_protocol(&mut self, proto: IpProtocol)
        requires
            old(self).wf(),
        ensures
            final(self)@ == old(self)@.update(field::PROTOCOL as int, proto.code()),
            final(self).wf(),
            IpProtocol::of(protocol_code_of(final(self)@)) == proto,
            same_outside(
                old(self)@,
                final(self)@,
                field::PROTOCOL as int,
                field::CHECKSUM.start as int,
            ),
    {
        self.buffer[field::PROTOCOL] = proto.into();
    }

    /// Stores `sum` in the checksum field. Where the header reaches past
    /// that field, the checksum that belongs to the header is the same
    /// before and after: it does not depend on the field.
    pub fn set_checksum(&mut self, sum: u16)
        requires
            old(self).wf(),
        ensures
            final(self)@ == with_be16(old(self)@, field::CHECKSUM.start as int, sum),
            final(self).wf(),
            stored_checksum_of(final(self)@) == sum,
            same_outside(
                old(self)@,
                final(self)@,
                field::CHECKSUM.start as int,
                field::CHECKSUM.end as int,
            ),
            field::CHECKSUM.end <= header_end_of(old(self)@) <= old(self)@.len()
                ==> checksum::header_checksum(header_of(final(self)@))
                == checksum::header_checksum(header_of(old(self)@)),
    {
        proof {
            let at = field::CHECKSUM.start as int;
            lemma_with_be16(self@, at, sum);
            if field::CHECKSUM.end <= header_end_of(self@) <= self@.len() {
                lemma_checksum_ignores_field(header_of(self@), at, sum);
                assert(header_of(with_be16(self@, at, sum)) =~= with_be16(header_of(self@), at, sum));
            }
        }
        put_u16(&mut self.buffer, field::CHECKSUM.start, sum);
    }

    pub fn set_source_addr(&mut self, src: IpAddress)
        requires
            old(self).wf(),
        ensures
            final(self)@ == splice(old(self)@, field::SRC_ADDR.start as int, src@),
            final(self).wf(),
            source_of(final(self)@) == src@,
            same_outside(
                old(self)@,
                final(self)@,
                field::SRC_ADDR.start as int,
                field::SRC_ADDR.end as int,
            ),
    {
        proof {
            lemma_splice(self@, field::SRC_ADDR.start as int, src@);
        }
        put_bytes(&mut self.buffer, field::SRC_ADDR.start, src.as_bytes());
    }

    pub fn set_destination_addr(&mut self, dst: IpAddress)
        requires
            old(self).wf(),
        ensures
            final(self)@ == splice(old(self)@, field::DST_ADDR.start as int, dst@),
            final(self).wf(),
            destination_of(final(self)@) == dst@,
            same_outside(
                old(self)@,
                final(self)@,
                field::DST_ADDR.start as int,
                field::DST_ADDR.end as int,
            ),
    {
        proof {
            lemma_splice(self@, field::DST_ADDR.start as int, dst@);
        }
        put_bytes(&mut self.buffer, field::DST_ADDR.start, dst.as_bytes());
    }

    /// Overwrites the options. `option` must be exactly as long as the
    /// options region that the header declares.
    pub fn set_option(&mut self, option: &[u8])
        requires
            old(self).wf(),
            option_in_bounds(old(self)@),
            option.len() == header_end_of(old(self)@) - field::DST_ADDR.end,
        ensures
            final(self)@ == splice(old(self)@, field::DST_ADDR.end as int, option@),
            final(self).wf(),
            option_of(final(self)@) == option@,
            same_outside(
                old(self)@,
                final(self)@,
                field::DST_ADDR.end as int,
                header_end_of(old(self)@),
            ),
    {
        let ihl = self.header_length();
        proof {
            lemma_splice(self@, field::DST_ADDR.end as int, option@);
        }
        put_bytes(&mut self.buffer, field::OPTION(ihl).start, option);
    }

    /// Overwrites the payload. `payload` must be exactly as long as the
    /// payload region that the header declares.
    pub fn set_payload(&mut self, payload: &[u8])
        requires
            old(self).wf(),
            payload_in_bounds(old(self)@),
            payload.len() == total_length_of(old(self)@) - header_end_of(old(self)@),
        ensures
            final(self)@ == splice(old(self)@, header_end_of(old(self)@), payload@),
            final(self).wf(),
            header_end_of(old(self)@) >= field::LENGTH.end ==> payload_of(final(self)@)
                == payload@,
            same_outside(
                old(self)@,
                final(self)@,
                header_end_of(old(self)@),
                total_length_of(old(self)@),
            ),
    {
        let (ihl, length) = (self.header_length(), self.length());
        proof {
            lemma_splice(self@, header_end_of(self@), payload@);
        }
        put_bytes(&mut self.buffer, field::PAYLOAD(ihl, length).start, payload);
    }
}

} // verus!
