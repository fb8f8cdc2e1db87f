//! The server's answer to an authentication request.
use vstd::prelude::*;
use crate::encoding;
use crate::base_types::Serializable;
use crate::errors::FromBytesError;
use crate::server::protocol::Header;
use crate::server::utils::errors::AuthError;

verus! {

/// Authentication acknowledgement.
#[derive(Debug)]
pub struct AuthReqAck {
    pub header: AuthReqAckHeader,
    pub payload: Result<AuthReqAckPayload, AuthReqAckError>,
}

impl AuthReqAck {
    /// A successful acknowledgement with a five-minute session timeout.
    pub fn new_success() -> (r: Self)
        ensures
            r.header.is_authenticated,
            r.header.payload_length == 1,
            r.payload matches Ok(p) && p.session_timeout_minutes == 5,
    {
        let payload = AuthReqAckPayload { session_timeout_minutes: 5 };
        let n = payload.byte_length();
        let header = AuthReqAckHeader { is_authenticated: true, payload_length: n as u16 };
        AuthReqAck { header, payload: Ok(payload) }
    }

    /// Decodes like `from_bytes`, but answers `None` on the bytes that
    /// `from_bytes` cannot read: all but the four bytes of a successful
    /// acknowledgement with a one-byte payload.
    pub fn checked_from_bytes(bytes: &[u8]) -> (r: Option<Result<Self, FromBytesError>>)
        ensures
            r is Some <==> Self::from_bytes_ok(bytes@),
            r matches Some(res) ==> (res is Err <==> Self::from_bytes_err(bytes@)),
            r matches Some(Ok(v)) ==> Self::decodes_to(bytes@, v),
    {
        if bytes.len() != 4 || bytes[0] != 1 || encoding::read_u16_le(bytes, 1) != 1 {
            return None;
        }
        Some(Self::from_bytes(bytes))
    }
}

impl Serializable for AuthReqAck {
    open spec fn spec_to_bytes(&self) -> Seq<u8> {
        match self.payload {
            Ok(p) => self.header.spec_to_bytes() + p.spec_to_bytes(),
            Err(_) => self.header.spec_to_bytes(),
        }
    }

    /// Only successful acknowledgements can be encoded: the error payload has
    /// no encoding.
    open spec fn to_bytes_ok(&self) -> bool {
        &&& self.payload is Ok
        &&& self.header.is_authenticated
        &&& self.header.payload_length == 1
    }

    /// The header decoder reads exactly four bytes, so only a header that
    /// announces a one-byte success payload followed by it can be decoded.
    open spec fn from_bytes_ok(bytes: Seq<u8>) -> bool {
        &&& bytes.len() == 4
        &&& bytes[0] == 1
        &&& encoding::u16_at(bytes, 1) == 1
    }

    open spec fn from_bytes_err(bytes: Seq<u8>) -> bool {
        false
    }

    open spec fn decodes_to(bytes: Seq<u8>, v: Self) -> bool {
        &&& AuthReqAckHeader::decodes_to(bytes, v.header)
        &&& v.payload matches Ok(p) && AuthReqAckPayload::decodes_to(bytes.subrange(3, 4), p)
    }

    fn to_bytes(&self) -> (r: Vec<u8>) {
        let mut r = self.header.to_bytes();
        match &self.payload {
            Ok(payload) => {
                let p = payload.to_bytes();
                encoding::append_bytes(&mut r, p.as_slice());
            },
            Err(_) => {},
        }
        r
    }

    fn from_bytes(bytes: &[u8]) -> (r: Result<Self, FromBytesError>) {
        let header = match AuthReqAckHeader::from_bytes(bytes) {
            Ok(h) => h,
            Err(e) => {
                return Err(e);
            },
        };
        let rest = encoding::copy_range(bytes, 3, bytes.len());
        let payload = match AuthReqAckPayload::from_bytes(rest.as_slice()) {
            Ok(p) => p,
            Err(e) => {
                return Err(e);
            },
        };
        Ok(AuthReqAck { header, payload: Ok(payload) })
    }
}

/// Header of an authentication acknowledgement: flag byte and payload length.
#[derive(Debug)]
pub struct AuthReqAckHeader {
    pub is_authenticated: bool,
    pub payload_length: u16,
}

impl Header for AuthReqAckHeader {
    open spec fn spec_size(&self) -> usize {
        3
    }

    fn size(&self) -> (r: usize) {
        3
    }
}

impl Serializable for AuthReqAckHeader {
    open spec fn spec_to_bytes(&self) -> Seq<u8> {
        seq![encoding::bool_byte(self.is_authenticated)] + encoding::le_u16(self.payload_length)
    }

    open spec fn to_bytes_ok(&self) -> bool {
        true
    }

    /// The decoder insists on one byte more than the three it reads.
    open spec fn from_bytes_ok(bytes: Seq<u8>) -> bool {
        bytes.len() == 4
    }

    open spec fn from_bytes_err(bytes: Seq<u8>) -> bool {
        false
    }

    open spec fn decodes_to(bytes: Seq<u8>, v: Self) -> bool {
        &&& v.is_authenticated == (bytes[0] == 1)
        &&& v.payload_length == encoding::u16_at(bytes, 1)
    }

    fn to_bytes(&self) -> (r: Vec<u8>) {
        let mut v: Vec<u8> = Vec::new();
        v.push(if self.is_authenticated {
            1
        } else {
            0
        });
        encoding::push_u16_le(&mut v, self.payload_length);
        v
    }

    fn from_bytes(bytes: &[u8]) -> (r: Result<Self, FromBytesError>) {
        let is_authenticated = bytes[0] == 1;
        let payload_length = encoding::read_u16_le(bytes, 1);
        Ok(AuthReqAckHeader { is_authenticated, payload_length })
    }
}

/// Payload of a successful authentication: the session timeout.
#[derive(Debug)]
pub struct AuthReqAckPayload {
    pub session_timeout_minutes: u8,
}

impl Serializable for AuthReqAckPayload {
    open spec fn spec_to_bytes(&self) -> Seq<u8> {
        seq![self.session_timeout_minutes]
    }

    open spec fn to_bytes_ok(&self) -> bool {
        true
    }

    open spec fn from_bytes_ok(bytes: Seq<u8>) -> bool {
        bytes.len() >= 1
    }

    open spec fn from_bytes_err(bytes: Seq<u8>) -> bool {
        false
    }

    open spec fn decodes_to(bytes: Seq<u8>, v: Self) -> bool {
        v.session_timeout_minutes == bytes[0]
    }

    fn to_bytes(&self) -> (r: Vec<u8>) {
        let mut v: Vec<u8> = Vec::new();
        v.push(self.session_timeout_minutes);
        v
    }

    fn from_bytes(bytes: &[u8]) -> (r: Result<Self, FromBytesError>) {
        Ok(AuthReqAckPayload { session_timeout_minutes: bytes[0] })
    }
}

/// Payload of a failed authentication.
#[derive(Debug)]
pub struct AuthReqAckError {
    pub err_length: u16,
    pub err: AuthError,
}

/// The successful acknowledgement encodes to four bytes that decode to it.
pub proof fn lemma_auth_req_ack_roundtrip(a: AuthReqAck)
    requires
        a.to_bytes_ok(),
    ensures
        AuthReqAck::from_bytes_ok(a.spec_to_bytes()),
        AuthReqAck::decodes_to(a.spec_to_bytes(), a),
{
    encoding::lemma_u16_roundtrip(a.header.payload_length);
    let b = a.spec_to_bytes();
    assert(encoding::u16_at(b, 1) == encoding::u16_at(encoding::le_u16(a.header.payload_length), 0));
    assert(b.subrange(3, 4)[0] == b[3]);
}

} // verus!
