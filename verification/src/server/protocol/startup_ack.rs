//! The server's answer to a startup: versions and either a salt or an error.
use vstd::prelude::*;
use crate::encoding;
use crate::base_types::Serializable;
use crate::errors::{FromBytesError, U8EnumConversionError};
use crate::server::protocol::messages::{
    FromMessageError, Message, MessageAble, MessageHeader, MessageKind,
};
use crate::server::serialization::{
    lemma_string_roundtrip, spec_string_to_bytes, str_encoding_ok, string_at, string_at_ok,
    string_fits_at, string_from_bytes, string_to_bytes,
};
use crate::server::utils::types::Salt;

verus! {

/// Startup acknowledgement.
#[derive(Debug, PartialEq)]
pub struct StartUpAck {
    pub header: StartUpAckHeaders,
    pub payload: Result<StartUpAckPayload, StartUpAckErr>,
}

/// The bytes of the payload of an acknowledgement, success or error.
pub open spec fn spec_ack_payload_bytes(p: Result<StartUpAckPayload, StartUpAckErr>) -> Seq<u8> {
    match p {
        Ok(pl) => pl.spec_to_bytes(),
        Err(e) => e.spec_to_bytes(),
    }
}

/// The payload of an acknowledgement can be encoded.
pub open spec fn ack_payload_ok(p: Result<StartUpAckPayload, StartUpAckErr>) -> bool {
    match p {
        Ok(pl) => true,
        Err(e) => e.to_bytes_ok(),
    }
}

impl StartUpAck {
    pub fn new_success(header: StartUpAckHeaders, payload: StartUpAckPayload) -> (r: Self)
        requires
            !header.is_error,
        ensures
            r.header == header,
            r.payload == Ok::<StartUpAckPayload, StartUpAckErr>(payload),
    {
        Self { header, payload: Ok(payload) }
    }

    pub fn new_error(header: StartUpAckHeaders, payload_err: StartUpAckErr) -> (r: Self)
        requires
            header.is_error,
        ensures
            r.header == header,
            r.payload == Err::<StartUpAckPayload, StartUpAckErr>(payload_err),
    {
        Self { header, payload: Err(payload_err) }
    }

    pub fn is_error(&self) -> (r: bool)
        ensures
            r == self.header.is_error,
    {
        self.header.is_error
    }

    /// The header tells success from error as the payload does and records
    /// the payload's encoded length.
    pub open spec fn wf(&self) -> bool {
        &&& self.header.is_error == (self.payload is Err)
        &&& ack_payload_ok(self.payload)
        &&& self.header.payload_length == spec_ack_payload_bytes(self.payload).len()
        &&& (self.payload matches Err(e) ==> encoding::utf8(e.err_msg@).len() < 65535)
    }

    /// Decodes like `from_message`, but answers `None` on the messages that
    /// `from_message` cannot read: another kind, a header shorter than
    /// seven bytes, an error payload that is empty or whose message cannot
    /// be read, or a success payload that is not two bytes long.
    pub fn checked_from_message(msg: Message) -> (r: Option<Result<Self, FromMessageError>>)
        ensures
            r is Some <==> Self::from_message_ok(msg),
            r matches Some(res) ==> Self::from_message_result(msg, res),
    {
        if msg.message_header.kind != MessageKind::ServerStartupAck || msg.header.len() < 7 {
            return None;
        }
        let p = msg.payload.as_slice();
        if msg.header[4] != 0 {
            if p.len() < 1 || (p[0] <= 1 && !string_fits_at(p, 1)) {
                return None;
            }
        } else if p.len() != 2 {
            return None;
        }
        Some(Self::from_message(msg))
    }
}

impl MessageAble for StartUpAck {
    open spec fn to_message_ok(&self) -> bool {
        &&& ack_payload_ok(self.payload)
        &&& spec_ack_payload_bytes(self.payload).len() <= u16::MAX
    }

    open spec fn is_message_of(&self, m: Message) -> bool {
        &&& m.message_header.kind == MessageKind::ServerStartupAck
        &&& m.header@ == self.header.spec_to_bytes()
        &&& m.payload@ == spec_ack_payload_bytes(self.payload)
        &&& m.wf()
    }

    open spec fn from_message_ok(msg: Message) -> bool {
        &&& msg.message_header.kind == MessageKind::ServerStartupAck
        &&& StartUpAckHeaders::from_bytes_ok(msg.header@)
        &&& if msg.header@[4] != 0 {
            StartUpAckErr::from_bytes_ok(msg.payload@)
        } else {
            StartUpAckPayload::from_bytes_ok(msg.payload@)
        }
    }

    open spec fn from_message_result(msg: Message, r: Result<Self, FromMessageError>) -> bool {
        if msg.header@[4] != 0 && StartUpAckErr::from_bytes_err(msg.payload@) {
            r == Err::<Self, FromMessageError>(FromMessageError::CastHeaderFailure)
        } else {
            r matches Ok(v) && StartUpAckHeaders::decodes_to(msg.header@, v.header) && match v.payload {
                Ok(p) => msg.header@[4] == 0 && StartUpAckPayload::decodes_to(msg.payload@, p),
                Err(e) => msg.header@[4] != 0 && StartUpAckErr::decodes_to(msg.payload@, e),
            }
        }
    }

    fn to_message(self) -> (m: Message) {
        let payload = match &self.payload {
            Ok(pl) => pl.to_bytes(),
            Err(pl_err) => pl_err.to_bytes(),
        };
        let header = self.header.to_bytes();
        let message_header = MessageHeader::new(
            MessageKind::ServerStartupAck,
            header.len() as u16,
            payload.len() as u16,
        );
        Message { message_header, header, payload }
    }

    fn from_message(msg: Message) -> (r: Result<Self, FromMessageError>) {
        let header = match StartUpAckHeaders::from_bytes(msg.header.as_slice()) {
            Ok(h) => h,
            Err(_) => {
                return Err(FromMessageError::CastHeaderFailure);
            },
        };
        let payload = if header.is_error {
            match StartUpAckErr::from_bytes(msg.payload.as_slice()) {
                Ok(e) => Err(e),
                Err(_) => {
                    return Err(FromMessageError::CastHeaderFailure);
                },
            }
        } else {
            match StartUpAckPayload::from_bytes(msg.payload.as_slice()) {
                Ok(p) => Ok(p),
                Err(_) => {
                    return Err(FromMessageError::CastHeaderFailure);
                },
            }
        };
        Ok(Self { header, payload })
    }
}

impl Serializable for StartUpAck {
    open spec fn spec_to_bytes(&self) -> Seq<u8> {
        self.header.spec_to_bytes() + spec_ack_payload_bytes(self.payload)
    }

    open spec fn to_bytes_ok(&self) -> bool {
        &&& self.header.is_error == (self.payload is Err)
        &&& ack_payload_ok(self.payload)
        &&& self.header.payload_length == spec_ack_payload_bytes(self.payload).len() % 65536
    }

    open spec fn from_bytes_ok(bytes: Seq<u8>) -> bool {
        &&& bytes.len() >= 7
        &&& if bytes[4] != 0 {
            StartUpAckErr::from_bytes_ok(bytes.subrange(7, bytes.len() as int))
        } else {
            StartUpAckPayload::from_bytes_ok(bytes.subrange(7, bytes.len() as int))
        }
    }

    open spec fn from_bytes_err(bytes: Seq<u8>) -> bool {
        bytes[4] != 0 && StartUpAckErr::from_bytes_err(bytes.subrange(7, bytes.len() as int))
    }

    open spec fn decodes_to(bytes: Seq<u8>, v: Self) -> bool {
        let rest = bytes.subrange(7, bytes.len() as int);
        &&& StartUpAckHeaders::decodes_to(bytes, v.header)
        &&& match v.payload {
            Ok(p) => bytes[4] == 0 && StartUpAckPayload::decodes_to(rest, p),
            Err(e) => bytes[4] != 0 && StartUpAckErr::decodes_to(rest, e),
        }
    }

    fn to_bytes(&self) -> (r: Vec<u8>) {
        let mut r = self.header.to_bytes();
        let b_payload: Vec<u8> = match &self.payload {
            Ok(payload) => payload.to_bytes(),
            Err(err) => err.to_bytes(),
        };
        encoding::append_bytes(&mut r, b_payload.as_slice());
        r
    }

    fn from_bytes(bytes: &[u8]) -> (r: Result<Self, FromBytesError>) {
        let header = match StartUpAckHeaders::from_bytes(bytes) {
            Ok(h) => h,
            Err(e) => {
                return Err(e);
            },
        };
        let rest = encoding::copy_range(bytes, 7, bytes.len());
        let payload = if header.is_error {
            match StartUpAckErr::from_bytes(rest.as_slice()) {
                Ok(e) => Err(e),
                Err(e) => {
                    return Err(e);
                },
            }
        } else {
            match StartUpAckPayload::from_bytes(rest.as_slice()) {
                Ok(p) => Ok(p),
                Err(e) => {
                    return Err(e);
                },
            }
        };
        Ok(StartUpAck { header, payload })
    }
}

/// Acknowledgement header: protocol version, database version, error flag
/// and payload length.
#[derive(Debug, PartialEq, Clone)]
pub struct StartUpAckHeaders {
    pub version_ack: u16,
    pub db_version: u16,
    pub is_error: bool,
    pub payload_length: u16,
}

impl StartUpAckHeaders {
    pub fn new_success(version_ack: u16, db_version: u16, payload_length: u16) -> (r: Self)
        ensures
            r == (StartUpAckHeaders { version_ack, db_version, is_error: false, payload_length }),
    {
        StartUpAckHeaders { version_ack, db_version, is_error: false, payload_length }
    }

    pub fn new_error(version_ack: u16, db_version: u16, payload_length: u16) -> (r: Self)
        ensures
            r == (StartUpAckHeaders { version_ack, db_version, is_error: true, payload_length }),
    {
        StartUpAckHeaders { version_ack, db_version, is_error: true, payload_length }
    }
}

impl Serializable for StartUpAckHeaders {
    open spec fn spec_to_bytes(&self) -> Seq<u8> {
        encoding::le_u16(self.version_ack) + encoding::le_u16(self.db_version) + seq![
            encoding::bool_byte(self.is_error),
        ] + encoding::le_u16(self.payload_length)
    }

    open spec fn to_bytes_ok(&self) -> bool {
        true
    }

    open spec fn from_bytes_ok(bytes: Seq<u8>) -> bool {
        bytes.len() >= 7
    }

    open spec fn from_bytes_err(bytes: Seq<u8>) -> bool {
        false
    }

    open spec fn decodes_to(bytes: Seq<u8>, v: Self) -> bool {
        &&& v.version_ack == encoding::u16_at(bytes, 0)
        &&& v.db_version == encoding::u16_at(bytes, 2)
        &&& v.is_error == (bytes[4] != 0)
        &&& v.payload_length == encoding::u16_at(bytes, 5)
    }

    fn to_bytes(&self) -> (r: Vec<u8>) {
        let mut ret: Vec<u8> = Vec::new();
        encoding::push_u16_le(&mut ret, self.version_ack);
        encoding::push_u16_le(&mut ret, self.db_version);
        ret.push(if self.is_error {
            1
        } else {
            0
        });
        encoding::push_u16_le(&mut ret, self.payload_length);
        ret
    }

    fn from_bytes(bytes: &[u8]) -> (r: Result<Self, FromBytesError>) {
        let version_ack = encoding::read_u16_le(bytes, 0);
        let db_version = encoding::read_u16_le(bytes, 2);
        let is_error = bytes[4] != 0;
        let payload_length = encoding::read_u16_le(bytes, 5);
        Ok(StartUpAckHeaders { version_ack, db_version, is_error, payload_length })
    }
}

/// Payload of a successful acknowledgement: the user's salt.
#[derive(Debug, PartialEq, Clone)]
pub struct StartUpAckPayload {
    pub salt: Salt,
}

impl Serializable for StartUpAckPayload {
    open spec fn spec_to_bytes(&self) -> Seq<u8> {
        encoding::le_u16(self.salt)
    }

    open spec fn to_bytes_ok(&self) -> bool {
        true
    }

    open spec fn from_bytes_ok(bytes: Seq<u8>) -> bool {
        bytes.len() == 2
    }

    open spec fn from_bytes_err(bytes: Seq<u8>) -> bool {
        false
    }

    open spec fn decodes_to(bytes: Seq<u8>, v: Self) -> bool {
        v.salt == encoding::u16_at(bytes, 0)
    }

    fn to_bytes(&self) -> (r: Vec<u8>) {
        let mut r: Vec<u8> = Vec::new();
        encoding::push_u16_le(&mut r, self.salt);
        r
    }

    fn from_bytes(bytes: &[u8]) -> (r: Result<Self, FromBytesError>) {
        let salt = encoding::read_u16_le(bytes, 0);
        Ok(StartUpAckPayload { salt })
    }
}

impl StartUpAckPayload {
    pub fn new(salt: Salt) -> (r: Self)
        ensures
            r.salt == salt,
    {
        StartUpAckPayload { salt }
    }
}

/// Payload of a failed acknowledgement: a reason and a message.
#[derive(Debug, PartialEq, Clone)]
pub struct StartUpAckErr {
    pub reason: StartUpAckErrReason,
    pub err_msg: String,
}

impl Serializable for StartUpAckErr {
    open spec fn spec_to_bytes(&self) -> Seq<u8> {
        seq![self.reason.spec_byte()] + spec_string_to_bytes(self.err_msg@)
    }

    open spec fn to_bytes_ok(&self) -> bool {
        &&& str_encoding_ok(self.err_msg@)
        &&& spec_string_to_bytes(self.err_msg@).len() < u16::MAX
    }

    open spec fn from_bytes_ok(bytes: Seq<u8>) -> bool {
        &&& bytes.len() >= 1
        &&& (bytes[0] > 1 || string_at_ok(bytes, 1))
    }

    open spec fn from_bytes_err(bytes: Seq<u8>) -> bool {
        bytes[0] > 1
    }

    open spec fn decodes_to(bytes: Seq<u8>, v: Self) -> bool {
        &&& StartUpAckErrReason::spec_from_byte(bytes[0]) == Some(v.reason)
        &&& v.err_msg@ == string_at(bytes, 1)
    }

    fn to_bytes(&self) -> (r: Vec<u8>) {
        let mut res: Vec<u8> = Vec::new();
        res.push(self.reason.to_byte());
        let s = string_to_bytes(self.err_msg.as_str());
        encoding::append_bytes(&mut res, s.as_slice());
        res
    }

    fn from_bytes(bytes: &[u8]) -> (r: Result<Self, FromBytesError>) {
        let reason = match StartUpAckErrReason::try_from(bytes[0]) {
            Ok(r) => r,
            Err(_) => {
                return Err(FromBytesError::new());
            },
        };
        let (err_msg, _) = string_from_bytes(bytes, 1);
        Ok(StartUpAckErr { reason, err_msg })
    }
}

/// Why a startup was refused; its byte is 0 or 1.
#[derive(Clone, Copy, PartialEq, Eq, Debug)]
pub enum StartUpAckErrReason {
    Default,
    MultipleConnections,
}

impl StartUpAckErrReason {
    pub open spec fn spec_byte(self) -> u8 {
        match self {
            StartUpAckErrReason::Default => 0,
            StartUpAckErrReason::MultipleConnections => 1,
        }
    }

    pub open spec fn spec_from_byte(b: u8) -> Option<StartUpAckErrReason> {
        if b == 0 {
            Some(StartUpAckErrReason::Default)
        } else if b == 1 {
            Some(StartUpAckErrReason::MultipleConnections)
        } else {
            None
        }
    }

    pub fn to_byte(self) -> (r: u8)
        ensures
            r == self.spec_byte(),
    {
        match self {
            StartUpAckErrReason::Default => 0,
            StartUpAckErrReason::MultipleConnections => 1,
        }
    }

    pub fn try_from(value: u8) -> (r: Result<Self, U8EnumConversionError>)
        ensures
            match r {
                Ok(x) => Self::spec_from_byte(value) == Some(x),
                Err(e) => Self::spec_from_byte(value) is None && e.invalid_value == value,
            },
    {
        match value {
            0 => Ok(StartUpAckErrReason::Default),
            1 => Ok(Self::MultipleConnections),
            _ => Err(U8EnumConversionError::new(value)),
        }
    }
}

/// Encoding acknowledgement headers and decoding them gives them back.
pub proof fn lemma_startup_ack_headers_roundtrip(h: StartUpAckHeaders)
    ensures
        StartUpAckHeaders::from_bytes_ok(h.spec_to_bytes()),
        StartUpAckHeaders::decodes_to(h.spec_to_bytes(), h),
{
    encoding::lemma_u16_roundtrip(h.version_ack);
    encoding::lemma_u16_roundtrip(h.db_version);
    encoding::lemma_u16_roundtrip(h.payload_length);
    let b = h.spec_to_bytes();
    assert(encoding::u16_at(b, 0) == encoding::u16_at(encoding::le_u16(h.version_ack), 0));
    assert(encoding::u16_at(b, 2) == encoding::u16_at(encoding::le_u16(h.db_version), 0));
    assert(encoding::u16_at(b, 5) == encoding::u16_at(encoding::le_u16(h.payload_length), 0));
}

/// Encoding a salt payload and decoding it gives it back.
pub proof fn lemma_startup_ack_payload_roundtrip(p: StartUpAckPayload)
    ensures
        StartUpAckPayload::from_bytes_ok(p.spec_to_bytes()),
        StartUpAckPayload::decodes_to(p.spec_to_bytes(), p),
{
    encoding::lemma_u16_roundtrip(p.salt);
}

/// Encoding an error payload and decoding it gives it back.
pub proof fn lemma_startup_ack_err_roundtrip(e: StartUpAckErr)
    requires
        encoding::utf8(e.err_msg@).len() < 65535,
    ensures
        StartUpAckErr::from_bytes_ok(e.spec_to_bytes()),
        !StartUpAckErr::from_bytes_err(e.spec_to_bytes()),
        StartUpAckErr::decodes_to(e.spec_to_bytes(), e),
{
    let pre = seq![e.reason.spec_byte()];
    let s = spec_string_to_bytes(e.err_msg@);
    lemma_string_roundtrip(pre, e.err_msg@, Seq::<u8>::empty());
    assert(pre + s + Seq::<u8>::empty() == e.spec_to_bytes());
}

/// Encoding a well-formed acknowledgement and decoding it gives it back.
pub proof fn lemma_startup_ack_roundtrip(a: StartUpAck)
    requires
        a.wf(),
    ensures
        a.to_bytes_ok(),
        StartUpAck::from_bytes_ok(a.spec_to_bytes()),
        !StartUpAck::from_bytes_err(a.spec_to_bytes()),
        StartUpAck::decodes_to(a.spec_to_bytes(), a),
{
    lemma_startup_ack_headers_roundtrip(a.header);
    let hb = a.header.spec_to_bytes();
    let pb = spec_ack_payload_bytes(a.payload);
    let b = a.spec_to_bytes();
    assert(b.subrange(7, b.len() as int) == pb);
    assert(b[0] == hb[0] && b[1] == hb[1] && b[2] == hb[2] && b[3] == hb[3] && b[4] == hb[4]
        && b[5] == hb[5] && b[6] == hb[6]);
    match a.payload {
        Ok(p) => lemma_startup_ack_payload_roundtrip(p),
        Err(e) => lemma_startup_ack_err_roundtrip(e),
    }
}

} // verus!
