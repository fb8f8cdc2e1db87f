//! The client's authentication request: the salted password hash.
use vstd::prelude::*;
use crate::encoding;
use crate::base_types::Serializable;
use crate::errors::FromBytesError;
use crate::server::protocol::messages::{FromMessageError, Message, MessageAble, MessageKind};
use crate::server::utils::types::PasswordHash;

verus! {

/// Authentication request.
#[derive(Debug)]
pub struct AuthReq {
    pub hashed_password: PasswordHash,
}

impl AuthReq {
    pub fn new(hashed_password: PasswordHash) -> (r: Self)
        ensures
            r.hashed_password == hashed_password,
    {
        Self { hashed_password }
    }

    /// Decodes like `from_message`, but answers `None` on a message whose
    /// payload is not a 32-byte hash, which `from_message` cannot read.
    pub fn checked_from_message(msg: Message) -> (r: Option<Result<Self, FromMessageError>>)
        ensures
            r is Some <==> Self::from_message_ok(msg),
            r matches Some(res) ==> Self::from_message_result(msg, res),
    {
        if msg.payload.len() != 32 {
            return None;
        }
        Some(Self::from_message(msg))
    }
}

/// Copies exactly 32 bytes into a hash.
fn hash_from_slice(bytes: &[u8]) -> (r: PasswordHash)
    requires
        bytes@.len() == 32,
    ensures
        r@ == bytes@,
{
    let mut a: PasswordHash = [0u8; 32];
    let mut i: usize = 0;
    while i < 32
        invariant
            bytes@.len() == 32,
            i <= 32,
            forall|j: int| 0 <= j < i ==> a@[j] == bytes@[j],
        decreases 32 - i,
    {
        a[i] = bytes[i];
        i += 1;
    }
    assert(a@ == bytes@);
    a
}

impl MessageAble for AuthReq {
    open spec fn to_message_ok(&self) -> bool {
        true
    }

    open spec fn is_message_of(&self, m: Message) -> bool {
        &&& m.message_header.kind == MessageKind::ClientAuthReq
        &&& m.header@ == Seq::<u8>::empty()
        &&& m.payload@ == self.hashed_password@
        &&& m.wf()
    }

    open spec fn from_message_ok(msg: Message) -> bool {
        msg.payload@.len() == 32
    }

    open spec fn from_message_result(msg: Message, r: Result<Self, FromMessageError>) -> bool {
        r matches Ok(v) && v.hashed_password@ == msg.payload@
    }

    fn to_message(self) -> (m: Message) {
        let payload = encoding::copy_range(&self.hashed_password, 0, 32);
        assert(payload@ == self.hashed_password@);
        Message::new(MessageKind::ClientAuthReq, Vec::new(), payload)
    }

    fn from_message(msg: Message) -> (r: Result<Self, FromMessageError>) {
        let hash = hash_from_slice(msg.payload.as_slice());
        Ok(Self::new(hash))
    }
}

impl Serializable for AuthReq {
    open spec fn spec_to_bytes(&self) -> Seq<u8> {
        self.hashed_password@
    }

    open spec fn to_bytes_ok(&self) -> bool {
        true
    }

    open spec fn from_bytes_ok(bytes: Seq<u8>) -> bool {
        bytes.len() == 32
    }

    open spec fn from_bytes_err(bytes: Seq<u8>) -> bool {
        false
    }

    open spec fn decodes_to(bytes: Seq<u8>, v: Self) -> bool {
        v.hashed_password@ == bytes
    }

    fn to_bytes(&self) -> (r: Vec<u8>) {
        let r = encoding::copy_range(&self.hashed_password, 0, 32);
        assert(r@ == self.hashed_password@);
        r
    }

    fn from_bytes(bytes: &[u8]) -> (r: Result<Self, FromBytesError>) {
        Ok(AuthReq::new(hash_from_slice(bytes)))
    }
}

/// Encoding an authentication request and decoding it gives the same hash.
pub proof fn lemma_auth_req_roundtrip(a: AuthReq)
    ensures
        AuthReq::from_bytes_ok(a.spec_to_bytes()),
        AuthReq::decodes_to(a.spec_to_bytes(), a),
{
}

} // verus!
