//! ICMP messages: a 4-byte header of type, code and checksum, followed by a
//! body whose layout depends on the type.

use crate::packet::checksum::lemma_checksum_ignores_field;
use crate::packet::error::{Error, ErrorKind};
use crate::packet::wire::{
    be16_at, get_u16, lemma_splice, lemma_with_be16, put_bytes, put_u16, splice, with_be16,
};
use vstd::prelude::*;
use vstd::slice::slice_subrange;
use vstd::std_specs::convert::FromSpecImpl;

pub mod checksum;
pub mod field;

verus! {

/// The type of an ICMP message.
#[derive(Debug, PartialEq, Eq, Structural, PartialOrd, Ord, Clone, Copy)]
pub enum Type {
    EchoReply,
    DstUnreachable,
    SourceQuench,
    Redirect,
    EchoRequest,
    RouterAdvertisement,
    RouterSolicitation,
    TimeExceeded,
    ParameterProblem,
    Timestamp,
    TimestampReply,
    InformationRequest,
    InformationReply,
    AddressMaskRequest,
    AddressMaskReply,
    Unknown,
}

impl Type {
    /// The type that the wire value `code` stands for.
    pub open spec fn of(code: u8) -> Type {
        if code == 0 {
            Type::EchoReply
        } else if code == 3 {
            Type::DstUnreachable
        } else if code == 4 {
            Type::SourceQuench
        } else if code == 5 {
            Type::Redirect
        } else if code == 8 {
            Type::EchoRequest
        } else if code == 9 {
            Type::RouterAdvertisement
        } else if code == 10 {
            Type::RouterSolicitation
        } else if code == 11 {
            Type::TimeExceeded
        } else if code == 12 {
            Type::ParameterProblem
        } else if code == 13 {
            Type::Timestamp
        } else if code == 14 {
            Type::TimestampReply
        } else if code == 15 {
            Type::InformationRequest
        } else if code == 16 {
            Type::InformationReply
        } else if code == 17 {
            Type::AddressMaskRequest
        } else if code == 18 {
            Type::AddressMaskReply
        } else {
            Type::Unknown
        }
    }

    /// The wire value that is written for this type.
    pub open spec fn code(self) -> u8 {
        match self {
            Type::EchoReply => 0,
            Type::DstUnreachable => 3,
            Type::SourceQuench => 4,
            Type::Redirect => 5,
            Type::EchoRequest => 8,
            Type::RouterAdvertisement => 9,
            Type::RouterSolicitation => 10,
            Type::TimeExceeded => 11,
            Type::ParameterProblem => 12,
            Type::Timestamp => 13,
            Type::TimestampReply => 14,
            Type::InformationRequest => 15,
            Type::InformationReply => 16,
            Type::AddressMaskRequest => 17,
            Type::AddressMaskReply => 18,
            Type::Unknown => 0xff,
        }
    }

    /// Whether a message of this type carries an identifier, a sequence
    /// number and echoed data.
    pub open spec fn is_echo(self) -> bool {
        self == Type::EchoReply || self == Type::EchoRequest
    }

    /// The words that name this type.
    pub open spec fn spec_name(self) -> Seq<char> {
        match self {
            Type::EchoReply => "echo reply"@,
            Type::DstUnreachable => "destination unreachable"@,
            Type::SourceQuench => "source quench"@,
            Type::Redirect => "redirect"@,
            Type::EchoRequest => "echo request"@,
            Type::RouterAdvertisement => "router advertisement"@,
            Type::RouterSolicitation => "router solicitaion"@,
            Type::TimeExceeded => "time exceeded"@,
            Type::ParameterProblem => "parameter problem"@,
            Type::Timestamp => "timestamp"@,
            Type::TimestampReply => "timestamp reply"@,
            Type::InformationRequest => "information request"@,
            Type::InformationReply => "information reply"@,
            Type::AddressMaskRequest => "address mask request"@,
            Type::AddressMaskReply => "address mask reply"@,
            Type::Unknown => "unknown"@,
        }
    }

    /// The words that name this type, as they are shown to a reader.
    pub fn name(&self) -> (s: &'static str)
        ensures
            s@ == self.spec_name(),
    {
        match self {
            Type::EchoReply => "echo reply",
            Type::DstUnreachable => "destination unreachable",
            Type::SourceQuench => "source quench",
            Type::Redirect => "redirect",
            Type::EchoRequest => "echo request",
            Type::RouterAdvertisement => "router advertisement",
            Type::RouterSolicitation => "router solicitaion",
            Type::TimeExceeded => "time exceeded",
            Type::ParameterProblem => "parameter problem",
            Type::Timestamp => "timestamp",
            Type::TimestampReply => "timestamp reply",
            Type::InformationRequest => "information request",
            Type::InformationReply => "information reply",
            Type::AddressMaskRequest => "address mask request",
            Type::AddressMaskReply => "address mask reply",
            Type::Unknown => "unknown",
        }
    }

    /// Writing a type and reading the value back gives the same type.
    pub proof fn lemma_code_roundtrip(typ: Type)
        ensures
            Type::of(typ.code()) == typ,
    {
    }
}

impl From<u8> for Type {
    fn from(t: u8) -> (r: Type) {
        match t {
            0 => Type::EchoReply,
            3 => Type::DstUnreachable,
            4 => Type::SourceQuench,
            5 => Type::Redirect,
            8 => Type::EchoRequest,
            9 => Type::RouterAdvertisement,
            10 => Type::RouterSolicitation,
            11 => Type::TimeExceeded,
            12 => Type::ParameterProblem,
            13 => Type::Timestamp,
            14 => Type::TimestampReply,
            15 => Type::InformationRequest,
            16 => Type::InformationReply,
            17 => Type::AddressMaskRequest,
            18 => Type::AddressMaskReply,
            _ => Type::Unknown,
        }
    }
}

impl FromSpecImpl<u8> for Type {
    open spec fn obeys_from_spec() -> bool {
        true
    }

    open spec fn from_spec(t: u8) -> Type {
        Type::of(t)
    }
}

impl From<Type> for u8 {
    fn from(t: Type) -> (r: u8) {
        match t {
            Type::EchoReply => 0,
            Type::DstUnreachable => 3,
            Type::SourceQuench => 4,
            Type::Redirect => 5,
            Type::EchoRequest => 8,
            Type::RouterAdvertisement => 9,
            Type::RouterSolicitation => 10,
            Type::TimeExceeded => 11,
            Type::ParameterProblem => 12,
            Type::Timestamp => 13,
            Type::TimestampReply => 14,
            Type::InformationRequest => 15,
            Type::InformationReply => 16,
            Type::AddressMaskRequest => 17,
            Type::AddressMaskReply => 18,
            Type::Unknown => 0xff,
        }
    }
}

impl FromSpecImpl<Type> for u8 {
    open spec fn obeys_from_spec() -> bool {
        true
    }

    open spec fn from_spec(t: Type) -> u8 {
        t.code()
    }
}

/// Why a destination could not be reached.
#[derive(Debug, PartialEq, Eq, Structural, PartialOrd, Ord, Clone, Copy)]
pub enum DstUnreachableCode {
    NetworkUnreachable,
    HostUnreachable,
    ProtocolUnreachable,
    PortUnreachable,
    FragmentRequired,
    SrcRoutingFailed,
    Unknown,
}

impl DstUnreachableCode {
    /// The reason that the wire value `code` stands for.
    pub open spec fn of(code: u8) -> DstUnreachableCode {
        if code == 0 {
            DstUnreachableCode::NetworkUnreachable
        } else if code == 1 {
            DstUnreachableCode::HostUnreachable
        } else if code == 2 {
            DstUnreachableCode::ProtocolUnreachable
        } else if code == 3 {
            DstUnreachableCode::PortUnreachable
        } else if code == 4 {
            DstUnreachableCode::FragmentRequired
        } else if code == 5 {
            DstUnreachableCode::SrcRoutingFailed
        } else {
            DstUnreachableCode::Unknown
        }
    }

    /// The wire value that is written for this reason.
    pub open spec fn code(self) -> u8 {
        match self {
            DstUnreachableCode::NetworkUnreachable => 0,
            DstUnreachableCode::HostUnreachable => 1,
            DstUnreachableCode::ProtocolUnreachable => 2,
            DstUnreachableCode::PortUnreachable => 3,
            DstUnreachableCode::FragmentRequired => 4,
            DstUnreachableCode::SrcRoutingFailed => 5,
            DstUnreachableCode::Unknown => 0xff,
        }
    }

    /// Writing a reason and reading the value back gives the same reason.
    pub proof fn lemma_code_roundtrip(c: DstUnreachableCode)
        ensures
            DstUnreachableCode::of(c.code()) == c,
    {
    }
}

impl From<u8> for DstUnreachableCode {
    fn from(c: u8) -> (r: DstUnreachableCode) {
        match c {
            0 => DstUnreachableCode::NetworkUnreachable,
            1 => DstUnreachableCode::HostUnreachable,
            2 => DstUnreachableCode::ProtocolUnreachable,
            3 => DstUnreachableCode::PortUnreachable,
            4 => DstUnreachableCode::FragmentRequired,
            5 => DstUnreachableCode::SrcRoutingFailed,
            _ => DstUnreachableCode::Unknown,
        }
    }
}

impl FromSpecImpl<u8> for DstUnreachableCode {
    open spec fn obeys_from_spec() -> bool {
        true
    }

    open spec fn from_spec(c: u8) -> DstUnreachableCode {
        DstUnreachableCode::of(c)
    }
}

impl From<DstUnreachableCode> for u8 {
    fn from(c: DstUnreachableCode) -> (r: u8) {
        match c {
            DstUnreachableCode::NetworkUnreachable => 0,
            DstUnreachableCode::HostUnreachable => 1,
            DstUnreachableCode::ProtocolUnreachable => 2,
            DstUnreachableCode::PortUnreachable => 3,
            DstUnreachableCode::FragmentRequired => 4,
            DstUnreachableCode::SrcRoutingFailed => 5,
            DstUnreachableCode::Unknown => 0xff,
        }
    }
}

impl FromSpecImpl<DstUnreachableCode> for u8 {
    open spec fn obeys_from_spec() -> bool {
        true
    }

    open spec fn from_spec(c: DstUnreachableCode) -> u8 {
        c.code()
    }
}

/// The type of the message `bytes`.
pub open spec fn type_of(bytes: Seq<u8>) -> Type {
    Type::of(bytes[field::TYPE as int])
}

/// The code of the message `bytes`.
pub open spec fn code_of(bytes: Seq<u8>) -> u8 {
    bytes[field::CODE as int]
}

/// The checksum stored in the message `bytes`.
pub open spec fn stored_checksum_of(bytes: Seq<u8>) -> u16 {
    be16_at(bytes, field::CHECKSUM.start as int)
}

/// The header of the message `bytes`: type, code and checksum.
pub open spec fn header_of(bytes: Seq<u8>) -> Seq<u8> {
    bytes.subrange(0, field::DATA as int)
}

/// Everything behind the header of the message `bytes`.
pub open spec fn data_of(bytes: Seq<u8>) -> Seq<u8> {
    bytes.subrange(field::DATA as int, bytes.len() as int)
}

/// The identifier of an echo message; nothing for a message of another type.
pub open spec fn echo_ident_of(bytes: Seq<u8>) -> Option<u16> {
    if type_of(bytes).is_echo() {
        Some(be16_at(bytes, field::echo::IDENT.start as int))
    } else {
        None
    }
}

/// The sequence number of an echo message; nothing for a message of another
/// type.
pub open spec fn echo_seqno_of(bytes: Seq<u8>) -> Option<u16> {
    if type_of(bytes).is_echo() {
        Some(be16_at(bytes, field::echo::SEQNO.start as int))
    } else {
        None
    }
}

/// The echoed data of an echo message; nothing for a message of another type.
pub open spec fn echo_data_of(bytes: Seq<u8>) -> Option<Seq<u8>> {
    if type_of(bytes).is_echo() {
        Some(bytes.subrange(field::echo::DATA as int, bytes.len() as int))
    } else {
        None
    }
}

/// The reason given by a destination-unreachable message; nothing for a
/// message of another type.
pub open spec fn unreachable_code_of(bytes: Seq<u8>) -> Option<DstUnreachableCode> {
    if type_of(bytes) == Type::DstUnreachable {
        Some(DstUnreachableCode::of(code_of(bytes)))
    } else {
        None
    }
}

/// The next-hop MTU of a destination-unreachable message; nothing for a
/// message of another type.
pub open spec fn unreachable_nexthop_of(bytes: Seq<u8>) -> Option<u16> {
    if type_of(bytes) == Type::DstUnreachable {
        Some(be16_at(bytes, field::unreachable::NEXT.start as int))
    } else {
        None
    }
}

/// The datagram quoted by a destination-unreachable message; nothing for a
/// message of another type.
pub open spec fn unreachable_data_of(bytes: Seq<u8>) -> Option<Seq<u8>> {
    if type_of(bytes) == Type::DstUnreachable {
        Some(bytes.subrange(field::unreachable::DATA as int, bytes.len() as int))
    } else {
        None
    }
}

/// Whether `bytes` holds a whole header.
pub open spec fn has_header(bytes: Seq<u8>) -> bool {
    bytes.len() >= field::DATA
}

/// What construction makes of `bytes`: a buffer that holds a header is taken
/// as it is, a shorter one is refused as badly formed.
pub open spec fn parse(bytes: Seq<u8>) -> Result<Seq<u8>, ErrorKind> {
    if has_header(bytes) {
        Ok(bytes)
    } else {
        Err(ErrorKind::InvalidFormat)
    }
}

/// Whether `bytes` is long enough for a message of its type: the header
/// always, and the eight bytes up to the data of an echo or
/// destination-unreachable message.
pub open spec fn valid(bytes: Seq<u8>) -> bool {
    &&& has_header(bytes)
    &&& type_of(bytes).is_echo() ==> bytes.len() >= field::echo::DATA
    &&& type_of(bytes) == Type::DstUnreachable ==> bytes.len() >= field::unreachable::DATA
}

/// What a slice holds, if there is one.
pub open spec fn bytes_of(s: Option<&[u8]>) -> Option<Seq<u8>> {
    match s {
        Some(s) => Some(s@),
        None => None,
    }
}

/// The bytes of a message parse to the same message again, so every accessor
/// returns after parsing what it returned before.
pub proof fn lemma_reparse(p: Packet)
    requires
        p.wf(),
    ensures
        parse(p@) == Ok::<Seq<u8>, ErrorKind>(p@),
{
}

/// An ICMP message held in a byte buffer. Every accessor reads or writes the
/// buffer itself; nothing is cached, and the body is read according to the
/// type that the buffer holds at that moment.
#[derive(Debug, PartialEq, Eq, PartialOrd, Ord)]
pub struct Packet {
    buffer: Vec<u8>,
}

impl View for Packet {
    type V = Seq<u8>;

    closed spec fn view(&self) -> Seq<u8> {
        self.buffer@
    }
}

impl Packet {
    /// The buffer holds a whole header. Construction establishes this and
    /// every method keeps it.
    pub open spec fn wf(&self) -> bool {
        has_header(self@)
    }

    /// Wraps `buffer`, which must hold at least the header.
    pub fn new(buffer: Vec<u8>) -> (r: Result<Packet, Error>)
        ensures
            match parse(buffer@) {
                Ok(bytes) => r is Ok && r->Ok_0@ == bytes && r->Ok_0.wf(),
                Err(kind) => r is Err && r->Err_0 == Error::of(kind),
            },
    {
        if buffer.len() < field::DATA {
            return Err(Error::from(ErrorKind::InvalidFormat));
        }
        Ok(Packet { buffer })
    }

    /// The length of the buffer.
    pub fn len(&self) -> (n: usize)
        ensures
            n == self@.len(),
    {
        self.buffer.len()
    }

    /// Succeeds exactly when the buffer is long enough for a message of the
    /// type it holds.
    pub fn is_valid(&self) -> (r: Result<(), Error>)
        requires
            self.wf(),
        ensures
            valid(self@) ==> r is Ok,
            !valid(self@) ==> r == Err::<(), Error>(Error::of(ErrorKind::InvalidFormat)),
    {
        let l = self.buffer.len();
        match self.typ() {
            Type::EchoReply | Type::EchoRequest => {
                if l < field::echo::DATA {
                    return Err(Error::from(ErrorKind::InvalidFormat));
                }
            },
            Type::DstUnreachable => {
                if l < field::unreachable::DATA {
                    return Err(Error::from(ErrorKind::InvalidFormat));
                }
            },
            _ => {},
        }
        Ok(())
    }

    /// Gives the buffer back.
    pub fn into_buffer(self) -> (buffer: Vec<u8>)
        ensures
            buffer@ == self@,
    {
        self.buffer
    }

    /// The whole buffer.
    pub fn as_bytes(&self) -> (bytes: &[u8])
        ensures
            bytes@ == self@,
    {
        self.buffer.as_slice()
    }

    pub fn header(&self) -> (r: &[u8])
        requires
            self.wf(),
        ensures
            r@ == header_of(self@),
    {
        let b = self.buffer.as_slice();
        slice_subrange(b, 0, field::DATA)
    }

    pub fn typ(&self) -> (r: Type)
        requires
            self.wf(),
        ensures
            r == type_of(self@),
    {
        let b = self.buffer.as_slice();
        Type::from(b[field::TYPE])
    }

    pub fn code(&self) -> (r: u8)
        requires
            self.wf(),
        ensures
            r == code_of(self@),
    {
        let b = self.buffer.as_slice();
        b[field::CODE]
    }

    pub fn checksum(&self) -> (r: u16)
        requires
            self.wf(),
        ensures
            r == stored_checksum_of(self@),
    {
        let b = self.buffer.as_slice();
        get_u16(b, field::CHECKSUM.start)
    }

    pub fn data(&self) -> (r: &[u8])
        requires
            self.wf(),
        ensures
            r@ == data_of(self@),
    {
        let b = self.buffer.as_slice();
        slice_subrange(b, field::DATA, b.len())
    }

    pub fn echo_ident(&self) -> (r: Option<u16>)
        requires
            self.wf(),
            type_of(self@).is_echo() ==> self@.len() >= field::echo::IDENT.end,
        ensures
            r == echo_ident_of(self@),
    {
        let b = self.buffer.as_slice();
        match self.typ() {
            Type::EchoReply => Some(get_u16(b, field::echo::IDENT.start)),
            Type::EchoRequest => Some(get_u16(b, field::echo::IDENT.start)),
            _ => None,
        }
    }

    pub fn echo_seqno(&self) -> (r: Option<u16>)
        requires
            self.wf(),
            type_of(self@).is_echo() ==> self@.len() >= field::echo::SEQNO.end,
        ensures
            r == echo_seqno_of(self@),
    {
        let b = self.buffer.as_slice();
        match self.typ() {
            Type::EchoReply => Some(get_u16(b, field::echo::SEQNO.start)),
            Type::EchoRequest => Some(get_u16(b, field::echo::SEQNO.start)),
            _ => None,
        }
    }

    pub fn echo_data(&self) -> (r: Option<&[u8]>)
        requires
            self.wf(),
            type_of(self@).is_echo() ==> self@.len() >= field::echo::DATA,
        ensures
            bytes_of(r) == echo_data_of(self@),
    {
        let b = self.buffer.as_slice();
        match self.typ() {
            Type::EchoReply => Some(slice_subrange(b, field::echo::DATA, b.len())),
            Type::EchoRequest => Some(slice_subrange(b, field::echo::DATA, b.len())),
            _ => None,
        }
    }

    pub fn unreachable_code(&self) -> (r: Option<DstUnreachableCode>)
        requires
            self.wf(),
        ensures
            r == unreachable_code_of(self@),
    {
        let b = self.buffer.as_slice();
        match self.typ() {
            Type::DstUnreachable => Some(DstUnreachableCode::from(b[field::CODE])),
            _ => None,
        }
    }

    pub fn unreachable_nexthop(&self) -> (r: Option<u16>)
        requires
            self.wf(),
            type_of(self@) == Type::DstUnreachable ==> self@.len() >= field::unreachable::NEXT.end,
        ensures
            r == unreachable_nexthop_of(self@),
    {
        let b = self.buffer.as_slice();
        match self.typ() {
            Type::DstUnreachable => Some(get_u16(b, field::unreachable::NEXT.start)),
            _ => None,
        }
    }

    pub fn unreachable_data(&self) -> (r: Option<&[u8]>)
        requires
            self.wf(),
            type_of(self@) == Type::DstUnreachable ==> self@.len() >= field::unreachable::DATA,
        ensures
            bytes_of(r) == unreachable_data_of(self@),
    {
        let b = self.buffer.as_slice();
        match self.typ() {
            Type::DstUnreachable => Some(slice_subrange(b, field::unreachable::DATA, b.len())),
            _ => None,
        }
    }

    pub fn set_type(&mut self, typ: Type)
        requires
            old(self).wf(),
        ensures
            final(self)@ == old(self)@.update(field::TYPE as int, typ.code()),
            final(self).wf(),
            type_of(final(self)@) == typ,
            code_of(final(self)@) == code_of(old(self)@),
            stored_checksum_of(final(self)@) == stored_checksum_of(old(self)@),
            data_of(final(self)@) == data_of(old(self)@),
    {
        let v: u8 = typ.into();
        self.buffer[field::TYPE] = v;
        proof {
            assert(data_of(self@) =~= data_of(old(self)@));
        }
    }

    pub fn set_code(&mut self, code: u8)
        requires
            old(self).wf(),
        ensures
            final(self)@ == old(self)@.update(field::CODE as int, code),
            final(self).wf(),
            code_of(final(self)@) == code,
            type_of(final(self)@) == type_of(old(self)@),
            stored_checksum_of(final(self)@) == stored_checksum_of(old(self)@),
            data_of(final(self)@) == data_of(old(self)@),
    {
        self.buffer[field::CODE] = code;
        proof {
            assert(data_of(self@) =~= data_of(old(self)@));
        }
    }

    /// Stores `sum` in the checksum field. The checksum that belongs to the
    /// message is the same before and after: it does not depend on the field.
    pub fn set_checksum(&mut self, sum: u16)
        requires
            old(self).wf(),
        ensures
            final(self)@ == with_be16(old(self)@, field::CHECKSUM.start as int, sum),
            final(self).wf(),
            stored_checksum_of(final(self)@) == sum,
            checksum::message_checksum(final(self)@) == checksum::message_checksum(old(self)@),
            type_of(final(self)@) == type_of(old(self)@),
            code_of(final(self)@) == code_of(old(self)@),
            data_of(final(self)@) == data_of(old(self)@),
    {
        proof {
            lemma_with_be16(self@, field::CHECKSUM.start as int, sum);
            lemma_checksum_ignores_field(self@, field::CHECKSUM.start as int, sum);
            assert(data_of(with_be16(self@, field::CHECKSUM.start as int, sum)) =~= data_of(self@));
        }
        put_u16(&mut self.buffer, field::CHECKSUM.start, sum);
    }

    /// Overwrites everything behind the header. `data` must be exactly as
    /// long as that region.
    pub fn set_data(&mut self, data: &[u8])
        requires
            old(self).wf(),
            data.len() == old(self)@.len() - field::DATA,
        ensures
            final(self)@ == header_of(old(self)@) + data@,
            final(self).wf(),
            data_of(final(self)@) == data@,
            header_of(final(self)@) == header_of(old(self)@),
    {
        proof {
            let after = splice(self@, field::DATA as int, data@);
            lemma_splice(self@, field::DATA as int, data@);
            assert(after =~= header_of(self@) + data@);
            assert(data_of(after) =~= data@);
            assert(header_of(after) =~= header_of(self@));
        }
        put_bytes(&mut self.buffer, field::DATA, data);
    }

    /// Stores the identifier of an echo message, whatever the type field
    /// holds.
    pub fn set_echo_ident(&mut self, ident: u16)
        requires
            old(self).wf(),
            old(self)@.len() >= field::echo::IDENT.end,
        ensures
            final(self)@ == with_be16(old(self)@, field::echo::IDENT.start as int, ident),
            final(self).wf(),
            type_of(final(self)@).is_echo() ==> echo_ident_of(final(self)@) == Some(ident),
            header_of(final(self)@) == header_of(old(self)@),
            old(self)@.len() >= field::echo::DATA ==> echo_seqno_of(final(self)@) == echo_seqno_of(
                old(self)@,
            ) && echo_data_of(final(self)@) == echo_data_of(old(self)@),
    {
        proof {
            let after = with_be16(self@, field::echo::IDENT.start as int, ident);
            lemma_with_be16(self@, field::echo::IDENT.start as int, ident);
            assert(header_of(after) =~= header_of(self@));
            if self@.len() >= field::echo::DATA {
                assert(after.subrange(field::echo::DATA as int, after.len() as int)
                    =~= self@.subrange(field::echo::DATA as int, self@.len() as int));
            }
        }
        put_u16(&mut self.buffer, field::echo::IDENT.start, ident);
    }

    /// Stores the sequence number of an echo message, whatever the type field
    /// holds.
    pub fn set_echo_seqno(&mut self, no: u16)
        requires
            old(self).wf(),
            old(self)@.len() >= field::echo::SEQNO.end,
        ensures
            final(self)@ == with_be16(old(self)@, field::echo::SEQNO.start as int, no),
            final(self).wf(),
            type_of(final(self)@).is_echo() ==> echo_seqno_of(final(self)@) == Some(no),
            header_of(final(self)@) == header_of(old(self)@),
            echo_ident_of(final(self)@) == echo_ident_of(old(self)@),
            echo_data_of(final(self)@) == echo_data_of(old(self)@),
    {
        proof {
            let after = with_be16(self@, field::echo::SEQNO.start as int, no);
            lemma_with_be16(self@, field::echo::SEQNO.start as int, no);
            assert(header_of(after) =~= header_of(self@));
            assert(after.subrange(field::echo::DATA as int, after.len() as int) =~= self@.subrange(
                field::echo::DATA as int,
                self@.len() as int,
            ));
        }
        put_u16(&mut self.buffer, field::echo::SEQNO.start, no);
    }

    /// Overwrites the echoed data of an echo message, whatever the type field
    /// holds. `data` must be exactly as long as that region.
    pub fn set_echo_data(&mut self, data: &[u8])
        requires
            old(self).wf(),
            old(self)@.len() >= field::echo::DATA,
            data.len() == old(self)@.len() - field::echo::DATA,
        ensures
            final(self)@ == old(self)@.subrange(0, field::echo::DATA as int) + data@,
            final(self).wf(),
            type_of(final(self)@).is_echo() ==> echo_data_of(final(self)@) == Some(data@),
            header_of(final(self)@) == header_of(old(self)@),
            echo_ident_of(final(self)@) == echo_ident_of(old(self)@),
            echo_seqno_of(final(self)@) == echo_seqno_of(old(self)@),
    {
        proof {
            let after = splice(self@, field::echo::DATA as int, data@);
            lemma_splice(self@, field::echo::DATA as int, data@);
            assert(after =~= self@.subrange(0, field::echo::DATA as int) + data@);
            assert(after.subrange(field::echo::DATA as int, after.len() as int) =~= data@);
            assert(header_of(after) =~= header_of(self@));
        }
        put_bytes(&mut self.buffer, field::echo::DATA, data);
    }
}

} // verus!
