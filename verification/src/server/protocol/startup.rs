//! The startup message that a client sends first: protocol version, user
//! name and requested database.
use vstd::prelude::*;
use crate::encoding;
use crate::base_types::Serializable;
use crate::errors::FromBytesError;
use crate::server::protocol::messages::{FromMessageError, Message, MessageAble, MessageKind};
use vstd::utf8::{decode_utf8, valid_utf8};
use crate::server::utils::types::Encoding;

verus! {

/// Startup message of a client.
#[derive(Debug, PartialEq, Clone)]
pub struct StartUp {
    pub header: StartUpHeader,
    pub payload: StartUpPayload,
}

impl StartUp {
    /// A startup for `username` and `requested_db_name`, each 1 to 255
    /// UTF-8 bytes long, whose header records the length of the encoded
    /// payload: two length bytes and the two names.
    pub fn new(version: u16, username: &str, requested_db_name: &str) -> (r: Self)
        requires
            name_len_ok(username@),
            name_len_ok(requested_db_name@),
        ensures
            r.header.version == version,
            r.header.encoding == Encoding::Default,
            r.header.payload_length == r.payload.spec_to_bytes().len(),
            r.header.payload_length == 2 + encoding::utf8(username@).len() + encoding::utf8(
                requested_db_name@,
            ).len(),
            r.payload.username@ == username@,
            r.payload.requested_db_name@ == requested_db_name@,
    {
        let payload = StartUpPayload::new(username, requested_db_name);
        let n = payload.byte_length();
        assert(payload.spec_to_bytes().len() == 2 + encoding::utf8(username@).len()
            + encoding::utf8(requested_db_name@).len());
        let header = StartUpHeader::new(version, n as u16);
        StartUp { header, payload }
    }

    pub fn extract_payload(&self) -> (r: &StartUpPayload)
        ensures
            r == &self.payload,
    {
        &self.payload
    }

    /// The header records the payload's encoded length and the payload is
    /// short enough that header and payload fit a 16-bit total.
    pub open spec fn wf(&self) -> bool {
        &&& self.payload.to_bytes_ok()
        &&& self.header.payload_length == self.payload.spec_to_bytes().len()
    }

    /// Decodes like `from_message`, but answers `None` on the start-up
    /// messages that `from_message` cannot read: a header shorter than five
    /// bytes or with another encoding, a payload length that the header,
    /// the frame and the payload do not agree on, or names that do not fit
    /// the payload or are not UTF-8.
    pub fn checked_from_message(msg: Message) -> (r: Option<Result<Self, FromMessageError>>)
        ensures
            r is Some <==> Self::from_message_ok(msg),
            r matches Some(res) ==> Self::from_message_result(msg, res),
    {
        if msg.message_header.kind == MessageKind::ClientStartup {
            let h = msg.header.as_slice();
            if h.len() < 5 || h[2] != 0 {
                return None;
            }
            let pl = encoding::read_u16_le(h, 3);
            if pl != msg.message_header.payload_length || pl as usize != msg.payload.len() {
                return None;
            }
            let p = msg.payload.as_slice();
            if p.len() < 2 {
                return None;
            }
            let ul = p[0] as usize;
            let dl = p[1] as usize;
            if 2 + ul + dl > p.len() {
                return None;
            }
            if !encoding::utf8_ok_range(p, 2, 2 + ul) || !encoding::utf8_ok_range(p, 2 + ul, 2 + ul + dl) {
                return None;
            }
        }
        Some(Self::from_message(msg))
    }
}

impl MessageAble for StartUp {
    open spec fn to_message_ok(&self) -> bool {
        &&& self.payload.to_bytes_ok()
        &&& self.header.payload_length == self.payload.spec_to_bytes().len()
    }

    open spec fn is_message_of(&self, m: Message) -> bool {
        &&& m.message_header.kind == MessageKind::ClientStartup
        &&& m.header@ == self.header.spec_to_bytes()
        &&& m.payload@ == self.payload.spec_to_bytes()
        &&& m.wf()
    }

    open spec fn from_message_ok(msg: Message) -> bool {
        msg.message_header.kind == MessageKind::ClientStartup ==> {
            &&& StartUpHeader::from_bytes_ok(msg.header@)
            &&& encoding::u16_at(msg.header@, 3) == msg.message_header.payload_length
            &&& encoding::u16_at(msg.header@, 3) == msg.payload@.len()
            &&& StartUpPayload::from_bytes_ok(msg.payload@)
        }
    }

    open spec fn from_message_result(msg: Message, r: Result<Self, FromMessageError>) -> bool {
        if msg.message_header.kind != MessageKind::ClientStartup {
            r == Err::<Self, FromMessageError>(
                FromMessageError::WrongMessageKind {
                    expected: MessageKind::ClientStartup,
                    got: msg.message_header.kind,
                },
            )
        } else {
            r matches Ok(v) && StartUpHeader::decodes_to(msg.header@, v.header)
                && StartUpPayload::decodes_to(msg.payload@, v.payload)
        }
    }

    fn to_message(self) -> (m: Message) {
        let b_header = self.header.to_bytes();
        let b_payload = self.payload.to_bytes();
        Message::new(MessageKind::ClientStartup, b_header, b_payload)
    }

    fn from_message(msg: Message) -> (r: Result<Self, FromMessageError>) {
        if msg.message_header.kind != MessageKind::ClientStartup {
            return Err(
                FromMessageError::WrongMessageKind {
                    expected: MessageKind::ClientStartup,
                    got: msg.message_header.kind,
                },
            );
        }
        let header = match StartUpHeader::from_bytes(msg.header.as_slice()) {
            Ok(h) => h,
            Err(_) => {
                return Err(FromMessageError::CastHeaderFailure);
            },
        };
        let payload = match StartUpPayload::from_bytes(msg.payload.as_slice()) {
            Ok(p) => p,
            Err(_) => {
                return Err(FromMessageError::CastPayloadFailure);
            },
        };
        Ok(StartUp { header, payload })
    }
}

impl Serializable for StartUp {
    open spec fn spec_to_bytes(&self) -> Seq<u8> {
        self.header.spec_to_bytes() + self.payload.spec_to_bytes()
    }

    open spec fn to_bytes_ok(&self) -> bool {
        &&& self.payload.to_bytes_ok()
        &&& self.payload.spec_to_bytes().len() % 65536 == self.header.payload_length
    }

    open spec fn from_bytes_ok(bytes: Seq<u8>) -> bool {
        let pl = encoding::u16_at(bytes, 3);
        &&& StartUpHeader::from_bytes_ok(bytes)
        &&& pl <= 65530
        &&& 5 + pl == bytes.len() % 65536
        &&& StartUpPayload::from_bytes_ok(bytes.subrange(5, bytes.len() as int))
    }

    open spec fn from_bytes_err(bytes: Seq<u8>) -> bool {
        false
    }

    open spec fn decodes_to(bytes: Seq<u8>, v: Self) -> bool {
        &&& StartUpHeader::decodes_to(bytes, v.header)
        &&& StartUpPayload::decodes_to(bytes.subrange(5, bytes.len() as int), v.payload)
    }

    fn to_bytes(&self) -> (r: Vec<u8>) {
        let b_payload = self.payload.to_bytes();
        let mut r = self.header.to_bytes();
        encoding::append_bytes(&mut r, b_payload.as_slice());
        r
    }

    fn from_bytes(bytes: &[u8]) -> (r: Result<Self, FromBytesError>) {
        let header = match StartUpHeader::from_bytes(bytes) {
            Ok(h) => h,
            Err(e) => {
                return Err(e);
            },
        };
        let rest = encoding::copy_range(bytes, 5, bytes.len());
        let payload = match StartUpPayload::from_bytes(rest.as_slice()) {
            Ok(p) => p,
            Err(e) => {
                return Err(e);
            },
        };
        Ok(StartUp { header, payload })
    }
}

/// Startup header: version (u16 LE), encoding byte, payload length (u16 LE).
#[derive(Debug, PartialEq, Clone)]
pub struct StartUpHeader {
    pub version: u16,
    pub encoding: Encoding,
    pub payload_length: u16,
}

impl StartUpHeader {
    pub fn new(version: u16, payload_length: u16) -> (r: Self)
        ensures
            r.version == version,
            r.encoding == Encoding::Default,
            r.payload_length == payload_length,
    {
        StartUpHeader { version, encoding: Encoding::Default, payload_length }
    }
}

impl Serializable for StartUpHeader {
    open spec fn spec_to_bytes(&self) -> Seq<u8> {
        encoding::le_u16(self.version) + seq![self.encoding.spec_byte()] + encoding::le_u16(
            self.payload_length,
        )
    }

    open spec fn to_bytes_ok(&self) -> bool {
        true
    }

    open spec fn from_bytes_ok(bytes: Seq<u8>) -> bool {
        bytes.len() >= 5 && bytes[2] == 0
    }

    open spec fn from_bytes_err(bytes: Seq<u8>) -> bool {
        false
    }

    open spec fn decodes_to(bytes: Seq<u8>, v: Self) -> bool {
        &&& v.version == encoding::u16_at(bytes, 0)
        &&& v.encoding == Encoding::Default
        &&& v.payload_length == encoding::u16_at(bytes, 3)
    }

    fn to_bytes(&self) -> (r: Vec<u8>) {
        let mut res: Vec<u8> = Vec::new();
        encoding::push_u16_le(&mut res, self.version);
        res.push(self.encoding.to_byte());
        encoding::push_u16_le(&mut res, self.payload_length);
        res
    }

    fn from_bytes(bytes: &[u8]) -> (r: Result<Self, FromBytesError>) {
        let version = encoding::read_u16_le(bytes, 0);
        let encoding = match Encoding::try_from(bytes[2]) {
            Ok(e) => e,
            Err(_) => {
                proof {
                    assert(false);
                }
                Encoding::Default
            },
        };
        let payload_length = encoding::read_u16_le(bytes, 3);
        Ok(StartUpHeader { version, encoding, payload_length })
    }
}

/// A name that the startup payload can carry: 1 to 255 UTF-8 bytes.
pub open spec fn name_len_ok(s: Seq<char>) -> bool {
    1 <= encoding::utf8(s).len() <= 255
}

/// Startup payload: the UTF-8 byte length of the user name (one byte), that
/// of the requested database name (one byte), then the two names.
#[derive(PartialEq, Debug, Clone)]
pub struct StartUpPayload {
    pub username: String,
    pub requested_db_name: String,
}

impl StartUpPayload {
    pub fn new(username: &str, requested_db_name: &str) -> (r: StartUpPayload)
        ensures
            r.username@ == username@,
            r.requested_db_name@ == requested_db_name@,
    {
        StartUpPayload {
            username: username.to_owned(),
            requested_db_name: requested_db_name.to_owned(),
        }
    }
}

impl Serializable for StartUpPayload {
    open spec fn spec_to_bytes(&self) -> Seq<u8> {
        seq![encoding::utf8(self.username@).len() as u8, encoding::utf8(self.requested_db_name@).len() as u8]
            + encoding::utf8(self.username@) + encoding::utf8(self.requested_db_name@)
    }

    open spec fn to_bytes_ok(&self) -> bool {
        name_len_ok(self.username@) && name_len_ok(self.requested_db_name@)
    }

    /// Both length bytes are there, the names they announce lie inside the
    /// bytes, and both are valid UTF-8.
    open spec fn from_bytes_ok(bytes: Seq<u8>) -> bool {
        &&& bytes.len() >= 2
        &&& 2 + bytes[0] + bytes[1] <= bytes.len()
        &&& valid_utf8(bytes.subrange(2, 2 + bytes[0]))
        &&& valid_utf8(bytes.subrange(2 + bytes[0], 2 + bytes[0] + bytes[1]))
    }

    open spec fn from_bytes_err(bytes: Seq<u8>) -> bool {
        false
    }

    open spec fn decodes_to(bytes: Seq<u8>, v: Self) -> bool {
        &&& v.username@ == decode_utf8(bytes.subrange(2, 2 + bytes[0]))
        &&& v.requested_db_name@ == decode_utf8(bytes.subrange(2 + bytes[0], 2 + bytes[0] + bytes[1]))
    }

    fn to_bytes(&self) -> (r: Vec<u8>) {
        let u = encoding::str_bytes(self.username.as_str());
        let d = encoding::str_bytes(self.requested_db_name.as_str());
        let mut b_payload: Vec<u8> = Vec::new();
        b_payload.push(u.len() as u8);
        b_payload.push(d.len() as u8);
        encoding::append_bytes(&mut b_payload, u.as_slice());
        encoding::append_bytes(&mut b_payload, d.as_slice());
        assert(b_payload@ =~= self.spec_to_bytes());
        b_payload
    }

    fn from_bytes(bytes: &[u8]) -> (r: Result<Self, FromBytesError>) {
        let ul = bytes[0] as usize;
        let dl = bytes[1] as usize;
        let username = match encoding::string_from_utf8(encoding::copy_range(bytes, 2, 2 + ul)) {
            Some(s) => s,
            None => {
                proof {
                    assert(false);
                }
                String::new()
            },
        };
        let requested_db_name = match encoding::string_from_utf8(
            encoding::copy_range(bytes, 2 + ul, 2 + ul + dl),
        ) {
            Some(s) => s,
            None => {
                proof {
                    assert(false);
                }
                String::new()
            },
        };
        Ok(Self { username, requested_db_name })
    }
}

/// A payload whose names are 1 to 255 UTF-8 bytes long reads back as
/// itself, and its encoding is two bytes longer than the two names.
pub proof fn lemma_startup_payload_roundtrip(p: StartUpPayload)
    requires
        p.to_bytes_ok(),
    ensures
        p.spec_to_bytes().len() == 2 + encoding::utf8(p.username@).len() + encoding::utf8(
            p.requested_db_name@,
        ).len(),
        StartUpPayload::from_bytes_ok(p.spec_to_bytes()),
        !StartUpPayload::from_bytes_err(p.spec_to_bytes()),
        StartUpPayload::decodes_to(p.spec_to_bytes(), p),
{
    let u = encoding::utf8(p.username@);
    let d = encoding::utf8(p.requested_db_name@);
    let b = p.spec_to_bytes();
    encoding::lemma_utf8_roundtrip(p.username@);
    encoding::lemma_utf8_roundtrip(p.requested_db_name@);
    assert(b[0] == u.len() && b[1] == d.len());
    assert(b.subrange(2, 2 + b[0]) =~= u);
    assert(b.subrange(2 + b[0], 2 + b[0] + b[1]) =~= d);
}

/// Encoding a startup header and decoding the bytes gives it back.
pub proof fn lemma_startup_header_roundtrip(h: StartUpHeader)
    ensures
        StartUpHeader::from_bytes_ok(h.spec_to_bytes()),
        StartUpHeader::decodes_to(h.spec_to_bytes(), h),
{
    encoding::lemma_u16_roundtrip(h.version);
    encoding::lemma_u16_roundtrip(h.payload_length);
    let b = h.spec_to_bytes();
    assert(encoding::u16_at(b, 3) == encoding::u16_at(encoding::le_u16(h.payload_length), 0));
    assert(encoding::u16_at(b, 0) == encoding::u16_at(encoding::le_u16(h.version), 0));
}

/// Encoding a well-formed startup and decoding the bytes gives it back.
pub proof fn lemma_startup_roundtrip(s: StartUp)
    requires
        s.wf(),
    ensures
        s.to_bytes_ok(),
        StartUp::from_bytes_ok(s.spec_to_bytes()),
        !StartUp::from_bytes_err(s.spec_to_bytes()),
        StartUp::decodes_to(s.spec_to_bytes(), s),
{
    lemma_startup_header_roundtrip(s.header);
    lemma_startup_payload_roundtrip(s.payload);
    let hb = s.header.spec_to_bytes();
    let pb = s.payload.spec_to_bytes();
    let b = s.spec_to_bytes();
    assert(b.subrange(5, b.len() as int) == pb);
    assert(b[0] == hb[0] && b[1] == hb[1] && b[2] == hb[2] && b[3] == hb[3] && b[4] == hb[4]);
}

/// A startup turned into a message and back is the same startup.
pub proof fn lemma_startup_message_roundtrip(s: StartUp, m: Message)
    requires
        s.wf(),
        s.is_message_of(m),
    ensures
        StartUp::from_message_ok(m),
        forall|r: Result<StartUp, FromMessageError>|
            #[trigger] StartUp::from_message_result(m, r) ==> (r matches Ok(v)
                && StartUpHeader::decodes_to(s.header.spec_to_bytes(), v.header)
                && StartUpPayload::decodes_to(s.payload.spec_to_bytes(), v.payload)),
{
    lemma_startup_header_roundtrip(s.header);
    lemma_startup_payload_roundtrip(s.payload);
    let hb = s.header.spec_to_bytes();
    assert(encoding::u16_at(hb, 3) == encoding::u16_at(encoding::le_u16(s.header.payload_length), 0));
}

} // verus!
