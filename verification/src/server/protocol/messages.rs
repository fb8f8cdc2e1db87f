//! The frame of every wire message: a five-byte message header followed by a
//! kind-specific header and a payload.
use vstd::prelude::*;
use vstd::std_specs::convert::FromSpecImpl;
use crate::server::utils::errors::ConnError;
use crate::encoding;
use crate::base_types::Serializable;
use crate::errors::FromBytesError;

verus! {

/// A framed message.
#[derive(Debug)]
pub struct Message {
    pub message_header: MessageHeader,
    pub header: Vec<u8>,
    pub payload: Vec<u8>,
}

impl Message {
    /// Frames `header` and `payload`, recording their lengths.
    pub fn new(kind: MessageKind, header: Vec<u8>, payload: Vec<u8>) -> (r: Self)
        requires
            header@.len() <= u16::MAX,
            payload@.len() <= u16::MAX,
        ensures
            r.message_header.kind == kind,
            r.message_header.header_length == header@.len(),
            r.message_header.payload_length == payload@.len(),
            r.header@ == header@,
            r.payload@ == payload@,
    {
        let message_header = MessageHeader::new(kind, header.len() as u16, payload.len() as u16);
        Message { message_header, header, payload }
    }

    /// The recorded lengths are those of the header and payload bytes and
    /// the kind has a byte of its own.
    pub open spec fn wf(&self) -> bool {
        &&& self.message_header.header_length == self.header@.len()
        &&& self.message_header.payload_length == self.payload@.len()
        &&& self.message_header.kind.is_known()
    }

    /// Decodes like `from_bytes`, but answers `None` on the bytes that
    /// `from_bytes` cannot read: fewer than five, or a known kind whose
    /// announced header and payload lengths do not add up to the rest.
    pub fn checked_from_bytes(bytes: &[u8]) -> (r: Option<Result<Self, FromBytesError>>)
        ensures
            r is Some <==> Self::from_bytes_ok(bytes@),
            r matches Some(res) ==> (res is Err <==> Self::from_bytes_err(bytes@)),
            r matches Some(Ok(v)) ==> Self::decodes_to(bytes@, v),
    {
        if bytes.len() < 5 {
            return None;
        }
        let known = match MessageKind::try_from(bytes[0]) {
            Ok(_) => true,
            Err(_) => false,
        };
        if known {
            let hl = encoding::read_u16_le(bytes, 1) as usize;
            let pl = encoding::read_u16_le(bytes, 3) as usize;
            if bytes.len() != 5 + hl + pl {
                return None;
            }
        }
        Some(Self::from_bytes(bytes))
    }
}

impl Serializable for Message {
    open spec fn spec_to_bytes(&self) -> Seq<u8> {
        self.message_header.spec_to_bytes() + self.header@ + self.payload@
    }

    open spec fn to_bytes_ok(&self) -> bool {
        true
    }

    open spec fn from_bytes_ok(bytes: Seq<u8>) -> bool {
        &&& bytes.len() >= 5
        &&& (MessageKind::spec_from_byte(bytes[0]) is None || bytes.len() == 5 + encoding::u16_at(
            bytes,
            1,
        ) + encoding::u16_at(bytes, 3))
    }

    open spec fn from_bytes_err(bytes: Seq<u8>) -> bool {
        MessageKind::spec_from_byte(bytes[0]) is None
    }

    open spec fn decodes_to(bytes: Seq<u8>, v: Self) -> bool {
        let hl = encoding::u16_at(bytes, 1) as int;
        &&& MessageHeader::decodes_to(bytes.subrange(0, 5), v.message_header)
        &&& v.header@ == bytes.subrange(5, 5 + hl)
        &&& v.payload@ == bytes.subrange(5 + hl, bytes.len() as int)
    }

    fn to_bytes(&self) -> (r: Vec<u8>) {
        let mut r = self.message_header.to_bytes();
        encoding::append_bytes(&mut r, self.header.as_slice());
        encoding::append_bytes(&mut r, self.payload.as_slice());
        r
    }

    fn from_bytes(bytes: &[u8]) -> (r: Result<Self, FromBytesError>) {
        let head = encoding::copy_range(bytes, 0, MessageHeader::HEADER_BYTE_LENGTH);
        assert(head@ == bytes@.subrange(0, 5));
        let message_header = match MessageHeader::from_bytes(head.as_slice()) {
            Ok(h) => h,
            Err(e) => {
                return Err(e);
            },
        };
        let hl = message_header.header_length as usize;
        let header = encoding::copy_range(bytes, 5, 5 + hl);
        let payload = encoding::copy_range(bytes, 5 + hl, bytes.len());
        Ok(Message { message_header, header, payload })
    }
}

/// The first five bytes of a message: kind, header length, payload length.
#[derive(Debug, Clone, Copy)]
pub struct MessageHeader {
    pub kind: MessageKind,
    pub header_length: u16,
    pub payload_length: u16,
}

impl MessageHeader {
    pub fn new(kind: MessageKind, header_length: u16, payload_length: u16) -> (r: Self)
        ensures
            r.kind == kind,
            r.header_length == header_length,
            r.payload_length == payload_length,
    {
        Self { kind, header_length, payload_length }
    }

    pub const HEADER_BYTE_LENGTH: usize = 5;
}

impl Serializable for MessageHeader {
    open spec fn spec_to_bytes(&self) -> Seq<u8> {
        seq![self.kind.spec_byte()] + encoding::le_u16(self.header_length) + encoding::le_u16(
            self.payload_length,
        )
    }

    open spec fn to_bytes_ok(&self) -> bool {
        true
    }

    open spec fn from_bytes_ok(bytes: Seq<u8>) -> bool {
        &&& bytes.len() >= 1
        &&& (MessageKind::spec_from_byte(bytes[0]) is None || bytes.len() == 5)
    }

    open spec fn from_bytes_err(bytes: Seq<u8>) -> bool {
        MessageKind::spec_from_byte(bytes[0]) is None
    }

    open spec fn decodes_to(bytes: Seq<u8>, v: Self) -> bool {
        &&& MessageKind::spec_from_byte(bytes[0]) == Some(v.kind)
        &&& v.header_length == encoding::u16_at(bytes, 1)
        &&& v.payload_length == encoding::u16_at(bytes, 3)
    }

    fn to_bytes(&self) -> (r: Vec<u8>) {
        let mut r: Vec<u8> = Vec::new();
        r.push(self.kind.into_u8());
        encoding::push_u16_le(&mut r, self.header_length);
        encoding::push_u16_le(&mut r, self.payload_length);
        r
    }

    fn from_bytes(bytes: &[u8]) -> (r: Result<Self, FromBytesError>) {
        let kind = match MessageKind::try_from(bytes[0]) {
            Ok(k) => k,
            Err(_) => {
                return Err(FromBytesError::new());
            },
        };
        let header_length = encoding::read_u16_le(bytes, 1);
        let payload_length = encoding::read_u16_le(bytes, 3);
        Ok(Self { kind, header_length, payload_length })
    }
}

/// Why a message could not be turned into a typed value.
#[derive(Debug)]
pub enum FromMessageError {
    WrongMessageKind { expected: MessageKind, got: MessageKind },
    CastHeaderFailure,
    CastPayloadFailure,
    EmptyMessage,
}

/// Values that travel as a framed message.
///
/// `to_message` runs to completion exactly when `to_message_ok` holds and
/// its result satisfies `is_message_of`; `from_message` runs to completion
/// exactly when `from_message_ok` holds and its result satisfies
/// `from_message_result`.
pub trait MessageAble: Sized {
    spec fn to_message_ok(&self) -> bool;

    spec fn is_message_of(&self, m: Message) -> bool;

    spec fn from_message_ok(msg: Message) -> bool;

    spec fn from_message_result(msg: Message, r: Result<Self, FromMessageError>) -> bool;

    fn to_message(self) -> (m: Message)
        requires
            self.to_message_ok(),
        ensures
            self.is_message_of(m),
    ;

    fn from_message(msg: Message) -> (r: Result<Self, FromMessageError>)
        requires
            Self::from_message_ok(msg),
        ensures
            Self::from_message_result(msg, r),
    ;
}

/// The kind of a message; its byte is its position in the list below, and
/// an unknown kind is written as 6.
#[derive(Debug, PartialEq, Eq, Structural, Clone, Copy)]
pub enum MessageKind {
    ClientStartup,
    ServerStartupAck,
    ClientAuthReq,
    ServerAuthReqAck,
    ClientQueryReq,
    ServerQueryResponse,
    UnknownMessageType(u8),
}

impl MessageKind {
    pub open spec fn is_known(self) -> bool {
        !(self is UnknownMessageType)
    }

    pub open spec fn spec_byte(self) -> u8 {
        match self {
            MessageKind::ClientStartup => 0,
            MessageKind::ServerStartupAck => 1,
            MessageKind::ClientAuthReq => 2,
            MessageKind::ServerAuthReqAck => 3,
            MessageKind::ClientQueryReq => 4,
            MessageKind::ServerQueryResponse => 5,
            MessageKind::UnknownMessageType(_) => 6,
        }
    }

    pub open spec fn spec_from_byte(b: u8) -> Option<MessageKind> {
        if b == 0 {
            Some(MessageKind::ClientStartup)
        } else if b == 1 {
            Some(MessageKind::ServerStartupAck)
        } else if b == 2 {
            Some(MessageKind::ClientAuthReq)
        } else if b == 3 {
            Some(MessageKind::ServerAuthReqAck)
        } else if b == 4 {
            Some(MessageKind::ClientQueryReq)
        } else if b == 5 {
            Some(MessageKind::ServerQueryResponse)
        } else {
            None
        }
    }

    pub open spec fn spec_header_size(self) -> usize {
        match self {
            MessageKind::ClientStartup => 32,
            MessageKind::ServerStartupAck => 32,
            MessageKind::ClientAuthReq => 12,
            MessageKind::ServerAuthReqAck => 32,
            MessageKind::ClientQueryReq => 32,
            MessageKind::ServerQueryResponse => 32,
            MessageKind::UnknownMessageType(_) => 0,
        }
    }

    pub fn header_size(&self) -> (r: usize)
        ensures
            r == self.spec_header_size(),
    {
        match self {
            MessageKind::ClientStartup => 32,
            MessageKind::ServerStartupAck => 32,
            MessageKind::ClientAuthReq => 12,
            MessageKind::ServerAuthReqAck => 32,
            MessageKind::ClientQueryReq => 32,
            MessageKind::ServerQueryResponse => 32,
            MessageKind::UnknownMessageType(_) => 0,
        }
    }

    /// The byte that stands for this kind.
    pub fn into_u8(self) -> (r: u8)
        ensures
            r == self.spec_byte(),
    {
        match self {
            MessageKind::ClientStartup => 0,
            MessageKind::ServerStartupAck => 1,
            MessageKind::ClientAuthReq => 2,
            MessageKind::ServerAuthReqAck => 3,
            MessageKind::ClientQueryReq => 4,
            MessageKind::ServerQueryResponse => 5,
            MessageKind::UnknownMessageType(_) => 6,
        }
    }

    /// The kind that a byte stands for; bytes above 5 are refused.
    pub fn try_from(value: u8) -> (r: Result<Self, UnknownMessageTypeError>)
        ensures
            match r {
                Ok(k) => Self::spec_from_byte(value) == Some(k),
                Err(e) => Self::spec_from_byte(value) is None && e.got == value,
            },
    {
        match value {
            0 => Ok(Self::ClientStartup),
            1 => Ok(Self::ServerStartupAck),
            2 => Ok(Self::ClientAuthReq),
            3 => Ok(Self::ServerAuthReqAck),
            4 => Ok(Self::ClientQueryReq),
            5 => Ok(Self::ServerQueryResponse),
            _ => Err(UnknownMessageTypeError { got: value }),
        }
    }
}

/// A byte that stands for no message kind.
#[derive(Debug)]
pub struct UnknownMessageTypeError {
    pub got: u8,
}

/// Every known kind is read back from its byte.
pub proof fn lemma_message_kind_byte_roundtrip(k: MessageKind)
    requires
        k.is_known(),
    ensures
        MessageKind::spec_from_byte(k.spec_byte()) == Some(k),
{
}

/// Encoding a message header and decoding the five bytes gives it back.
pub proof fn lemma_message_header_roundtrip(h: MessageHeader)
    requires
        h.kind.is_known(),
    ensures
        MessageHeader::from_bytes_ok(h.spec_to_bytes()),
        !MessageHeader::from_bytes_err(h.spec_to_bytes()),
        MessageHeader::decodes_to(h.spec_to_bytes(), h),
{
    encoding::lemma_u16_roundtrip(h.header_length);
    encoding::lemma_u16_roundtrip(h.payload_length);
    let b = h.spec_to_bytes();
    assert(encoding::u16_at(b, 1) == encoding::u16_at(encoding::le_u16(h.header_length), 0));
    assert(encoding::u16_at(b, 3) == encoding::u16_at(encoding::le_u16(h.payload_length), 0));
}

/// Encoding a well-formed message and decoding the bytes gives it back.
pub proof fn lemma_message_roundtrip(m: Message)
    requires
        m.wf(),
    ensures
        Message::from_bytes_ok(m.spec_to_bytes()),
        !Message::from_bytes_err(m.spec_to_bytes()),
        Message::decodes_to(m.spec_to_bytes(), m),
{
    lemma_message_header_roundtrip(m.message_header);
    let hb = m.message_header.spec_to_bytes();
    let b = m.spec_to_bytes();
    assert(b.subrange(0, 5) == hb);
    assert(b[0] == hb[0]);
    assert(b[1] == hb[1] && b[2] == hb[2] && b[3] == hb[3] && b[4] == hb[4]);
    let hl = m.header@.len() as int;
    assert(b.subrange(5, 5 + hl) == m.header@);
    assert(b.subrange(5 + hl, b.len() as int) == m.payload@);
}


/// Sending a message failed: on the stream, or on the connection.
#[derive(Debug)]
pub enum SendMessageError {
    IO(std::io::Error),
    Conn(ConnError),
}

impl From<ConnError> for SendMessageError {
    fn from(value: ConnError) -> (r: Self) {
        SendMessageError::Conn(value)
    }
}

impl FromSpecImpl<ConnError> for SendMessageError {
    open spec fn obeys_from_spec() -> bool {
        true
    }

    open spec fn from_spec(value: ConnError) -> SendMessageError {
        SendMessageError::Conn(value)
    }
}

impl From<std::io::Error> for SendMessageError {
    fn from(value: std::io::Error) -> (r: Self) {
        SendMessageError::IO(value)
    }
}

impl FromSpecImpl<std::io::Error> for SendMessageError {
    open spec fn obeys_from_spec() -> bool {
        true
    }

    open spec fn from_spec(value: std::io::Error) -> SendMessageError {
        SendMessageError::IO(value)
    }
}

/// Waiting for a message failed: on the stream, or while decoding it.
#[derive(Debug)]
pub enum AwaitMessageError {
    IO(std::io::Error),
    MessageConversionError(FromBytesError),
}

impl From<std::io::Error> for AwaitMessageError {
    fn from(value: std::io::Error) -> (r: Self) {
        AwaitMessageError::IO(value)
    }
}

impl FromSpecImpl<std::io::Error> for AwaitMessageError {
    open spec fn obeys_from_spec() -> bool {
        true
    }

    open spec fn from_spec(value: std::io::Error) -> AwaitMessageError {
        AwaitMessageError::IO(value)
    }
}

impl From<FromBytesError> for AwaitMessageError {
    fn from(value: FromBytesError) -> (r: Self) {
        AwaitMessageError::MessageConversionError(value)
    }
}

impl FromSpecImpl<FromBytesError> for AwaitMessageError {
    open spec fn obeys_from_spec() -> bool {
        true
    }

    open spec fn from_spec(value: FromBytesError) -> AwaitMessageError {
        AwaitMessageError::MessageConversionError(value)
    }
}

} // verus!
