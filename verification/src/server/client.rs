//! The client's side of the handshake: what it makes of each answer of the
//! server. Sending and receiving are left to the caller.
use vstd::prelude::*;
use vstd::string::*;
use crate::server::protocol::auth_req::AuthReq;
use crate::server::protocol::auth_req_ack::{AuthReqAck, AuthReqAckPayload};
use crate::server::protocol::startup_ack::StartUpAck;
use crate::server::utils::auth::{first_index, hash_input, hash_password, spec_sha256};
use crate::server::utils::mocks::{spec_user_table, user_names};
use crate::server::utils::errors::{ClientError, ProtocolError};

verus! {

/// Accepts a start-up acknowledgement that reports success; one that
/// reports an error ends the handshake with that error.
pub fn check_startup_ack(ack: StartUpAck) -> (r: Result<StartUpAck, ClientError>)
    requires
        ack.header.is_error ==> ack.payload is Err,
    ensures
        !ack.header.is_error ==> r == Ok::<StartUpAck, ClientError>(ack),
        ack.header.is_error ==> (r matches Err(ClientError::StartUpError(e))
            && ack.payload == Err::<crate::server::protocol::startup_ack::StartUpAckPayload, _>(e)),
{
    if ack.is_error() {
        match ack.payload {
            Err(e) => Err(ClientError::StartUpError(e)),
            Ok(_) => {
                proof {
                    assert(false);
                }
                Err(ClientError::ConnectionClosedError)
            },
        }
    } else {
        Ok(ack)
    }
}

/// The authentication request that answers a start-up acknowledgement: the
/// SHA-256 of the password followed by the salt that the acknowledgement
/// carries. An acknowledgement that carries an error is a protocol error.
pub fn auth_req_for(password: &str, ack: StartUpAck) -> (r: Result<AuthReq, ClientError>)
    ensures
        match ack.payload {
            Ok(p) => r matches Ok(a) && a.hashed_password@ == spec_sha256(hash_input(password@, p.salt)),
            Err(e) => r matches Err(ClientError::ProtocolError(ProtocolError::StartUpAckIsErr(x)))
                && x == e,
        },
{
    match ack.payload {
        Ok(p) => {
            let hashed = hash_password(password, p.salt);
            Ok(AuthReq::new(hashed))
        },
        Err(e) => Err(ClientError::ProtocolError(ProtocolError::StartUpAckIsErr(e))),
    }
}

/// The outcome of the server's authentication acknowledgement: the session
/// payload when the user is authenticated, else the server's error.
pub fn auth_ack_outcome(ack: AuthReqAck) -> (r: Result<AuthReqAckPayload, ClientError>)
    requires
        ack.header.is_authenticated == (ack.payload is Ok),
    ensures
        match ack.payload {
            Ok(p) => r == Ok::<AuthReqAckPayload, ClientError>(p),
            Err(e) => r matches Err(ClientError::AuthenticationError(a)) && a == e.err,
        },
{
    match ack.payload {
        Ok(p) => Ok(p),
        Err(e) => Err(ClientError::AuthenticationError(e.err)),
    }
}

/// The handshake admits a known user with the user's own password: the
/// user's name picks the user's own entry of the user table, so the salt
/// that the server's start-up acknowledgement carries is the user's, and
/// the hash that `auth_req_for` computes from the user's password and that
/// salt is the one that `respond_to_auth_req` accepts.
pub proof fn lemma_own_password_is_accepted(i: int)
    requires
        0 <= i < spec_user_table().len(),
    ensures
        first_index(user_names(), spec_user_table()[i].0) == Some(i),
        ({
            let j = first_index(user_names(), spec_user_table()[i].0)->Some_0;
            spec_sha256(hash_input(spec_user_table()[i].1, spec_user_table()[j].2)) == spec_sha256(
                hash_input(spec_user_table()[j].1, spec_user_table()[j].2),
            )
        }),
{
    reveal_strlit("Delcos");
    reveal_strlit("Seja");
    reveal_strlit("Edos");
    let names = user_names();
    assert(names =~= seq!["Delcos"@, "Seja"@, "Edos"@]);
    assert("Delcos"@ != "Seja"@ && "Delcos"@ != "Edos"@ && "Seja"@ != "Edos"@) by {
        assert("Delcos"@[0] != "Seja"@[0]);
        assert("Delcos"@[0] != "Edos"@[0]);
        assert("Seja"@[0] != "Edos"@[0]);
    }
    reveal_with_fuel(first_index, 4);
    assert(names.drop_first() =~= seq!["Seja"@, "Edos"@]);
    assert(names.drop_first().drop_first() =~= seq!["Edos"@]);
}

} // verus!
