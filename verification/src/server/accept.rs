//! The server's side of the connection handshake.
//!
//! A client first sends a start-up message naming its user and the database
//! it wants; the server refuses a user that is already connected, an unknown
//! database and an unknown user, and otherwise answers with the user's salt.
//! The client then sends the salted hash of its password, which the server
//! checks before acknowledging it.
use vstd::prelude::*;
use vstd::string::*;
use crate::base_types::{ConnectionId, Serializable};
use crate::encoding;
use crate::server::open_connections::{count_user, OpenConnections};
use crate::server::protocol::auth_req::AuthReq;
use crate::server::protocol::auth_req_ack::AuthReqAck;
use crate::server::protocol::startup::StartUp;
use crate::server::protocol::startup_ack::{
    StartUpAck,
    StartUpAckErr,
    StartUpAckErrReason,
    StartUpAckHeaders,
    StartUpAckPayload,
};
use crate::server::serialization::{spec_string_to_bytes, str_encoding_ok};
use crate::server::utils::auth::{
    check_password,
    check_requested_credentials,
    first_index,
    get_salt_for_username,
    hash_input,
    spec_sha256,
};
use crate::server::utils::errors::{AuthError, ServerAcceptConnError};
use crate::server::utils::mocks::{count_equal, spec_db_table, spec_user_table, user_names};

verus! {

/// The protocol version the server speaks.
pub const SERVER_PROTOCOL_VERSION: u16 = 1;

/// The database version the server announces.
pub const ANNOUNCED_DB_VERSION: u16 = 12345;

/// The message that refuses a second connection of a user.
pub open spec fn duplicate_text(username: Seq<char>) -> Seq<char> {
    "Duplicate connection for "@ + username
}

/// The user of start-up message `start_up` has an open connection.
pub open spec fn user_is_connected(open_connections: &OpenConnections, start_up: &StartUp) -> bool {
    count_user(open_connections.spec_view(), start_up.payload.username@) > 0
}

/// Whether user `username` has an open connection.
fn user_connected(open_connections: &OpenConnections, username: &str) -> (r: bool)
    ensures
        r == (count_user(open_connections.spec_view(), username@) > 0),
{
    let n = open_connections.conns.len();
    let ghost v = open_connections.spec_view();
    let mut i: usize = 0;
    while i < n
        invariant
            n == open_connections.conns@.len(),
            v == open_connections.spec_view(),
            v.len() == n,
            i <= n,
            count_user(v.take(i as int), username@) == 0,
        decreases n - i,
    {
        assert(v.take(i + 1).drop_last() == v.take(i as int));
        assert(v[i as int].0 == open_connections.conns@[i as int].username@);
        if encoding::str_eq(open_connections.conns[i].username.as_str(), username) {
            proof {
                assert(count_user(v.take(i + 1), username@) > 0);
                lemma_count_user_prefix(v, username@, i + 1);
            }
            return true;
        }
        i += 1;
    }
    assert(v.take(n as int) == v);
    false
}

/// Connections counted in a prefix are counted in the whole list.
proof fn lemma_count_user_prefix(v: Seq<(Seq<char>, ConnectionId)>, name: Seq<char>, k: int)
    requires
        0 <= k <= v.len(),
    ensures
        count_user(v.take(k), name) <= count_user(v, name),
    decreases v.len() - k,
{
    if k < v.len() {
        lemma_count_user_prefix(v, name, k + 1);
        assert(v.take(k + 1).drop_last() == v.take(k));
    } else {
        assert(v.take(k) == v);
    }
}

/// A name that occurs in `names` is found by `first_index`.
proof fn lemma_first_index_count(names: Seq<Seq<char>>, name: Seq<char>)
    ensures
        count_equal(names, name) > 0 ==> first_index(names, name) is Some,
    decreases names.len(),
{
    if count_equal(names, name) > 0 {
        lemma_count_contains(names, name);
        lemma_contains_first_index(names, name);
    }
}

proof fn lemma_count_contains(names: Seq<Seq<char>>, name: Seq<char>)
    requires
        count_equal(names, name) > 0,
    ensures
        names.contains(name),
    decreases names.len(),
{
    if names.last() == name {
        assert(names[names.len() - 1] == name);
    } else {
        lemma_count_contains(names.drop_last(), name);
        let i = choose|i: int| 0 <= i < names.drop_last().len() && names.drop_last()[i] == name;
        assert(names[i] == name);
    }
}

proof fn lemma_contains_first_index(names: Seq<Seq<char>>, name: Seq<char>)
    requires
        names.contains(name),
    ensures
        first_index(names, name) is Some,
    decreases names.len(),
{
    if names[0] != name {
        let i = choose|i: int| 0 <= i < names.len() && names[i] == name;
        assert(names.drop_first()[i - 1] == name);
        lemma_contains_first_index(names.drop_first(), name);
    }
}

/// The server's answer to a start-up message from client `client_id`: the
/// acknowledgement to send, if any, and the user name the handshake goes on
/// with, or why the connection is refused. A user who is connected already
/// is sent an error acknowledgement; an unknown database and an unknown user
/// are refused without one; otherwise the acknowledgement carries the user's
/// salt.
pub fn answer_startup(start_up: &StartUp, open_connections: &OpenConnections, client_id: ConnectionId) -> (r: (
    Option<StartUpAck>,
    Result<String, ServerAcceptConnError>,
))
    requires
        str_encoding_ok(duplicate_text(start_up.payload.username@)),
        spec_string_to_bytes(duplicate_text(start_up.payload.username@)).len() + 1 <= u16::MAX,
    ensures
        user_is_connected(open_connections, start_up) ==> r.0 is Some && r.0->Some_0.header == (
        StartUpAckHeaders {
            version_ack: start_up.header.version,
            db_version: ANNOUNCED_DB_VERSION,
            is_error: true,
            payload_length: (1 + spec_string_to_bytes(duplicate_text(start_up.payload.username@)).len()) as u16,
        }) && r.0->Some_0.payload is Err,
        user_is_connected(open_connections, start_up) ==> r.0->Some_0.payload->Err_0.reason
            == StartUpAckErrReason::MultipleConnections && r.0->Some_0.payload->Err_0.err_msg@
            == duplicate_text(start_up.payload.username@),
        user_is_connected(open_connections, start_up) ==> (r.1 matches Err(
            ServerAcceptConnError::DuplicateConnection { username, existing_conn_id },
        ) && username@ == start_up.payload.username@ && existing_conn_id == client_id),
        !user_is_connected(open_connections, start_up) && count_equal(
            spec_db_table(),
            start_up.payload.requested_db_name@,
        ) != 1 ==> r.0 is None && (r.1 matches Err(ServerAcceptConnError::NonExistingDb(d))
            && d@ == start_up.payload.requested_db_name@),
        !user_is_connected(open_connections, start_up) && count_equal(
            spec_db_table(),
            start_up.payload.requested_db_name@,
        ) == 1 && count_equal(user_names(), start_up.payload.username@) != 1 ==> r.0 is None && (
        r.1 matches Err(ServerAcceptConnError::AuthenticationFailure(AuthError::UnknownUser { name: n }))
            && n@ == start_up.payload.username@),
        !user_is_connected(open_connections, start_up) && count_equal(
            spec_db_table(),
            start_up.payload.requested_db_name@,
        ) == 1 && count_equal(user_names(), start_up.payload.username@) == 1 ==> r.0 is Some
            && r.0->Some_0.header == (StartUpAckHeaders {
            version_ack: SERVER_PROTOCOL_VERSION,
            db_version: ANNOUNCED_DB_VERSION,
            is_error: false,
            payload_length: 2,
        }) && r.0->Some_0.payload == Ok::<StartUpAckPayload, StartUpAckErr>(
            StartUpAckPayload {
                salt: spec_user_table()[first_index(user_names(), start_up.payload.username@)->Some_0].2,
            },
        ) && r.1 is Ok && r.1->Ok_0@ == start_up.payload.username@,
{
    let payload = start_up.extract_payload();
    let username = payload.username.as_str();
    let requested_db_name = payload.requested_db_name.as_str();
    if user_connected(open_connections, username) {
        let mut err_msg = "Duplicate connection for ".to_owned();
        err_msg.append(username);
        let payload_err = StartUpAckErr { reason: StartUpAckErrReason::MultipleConnections, err_msg };
        let n = payload_err.byte_length();
        let headers = StartUpAckHeaders::new_error(start_up.header.version, ANNOUNCED_DB_VERSION, n as u16);
        let ack = StartUpAck::new_error(headers, payload_err);
        return (
            Some(ack),
            Err(
                ServerAcceptConnError::DuplicateConnection {
                    username: username.to_owned(),
                    existing_conn_id: client_id,
                },
            ),
        );
    }
    match check_requested_credentials(username, requested_db_name) {
        Ok(()) => {},
        Err(e) => {
            return (None, Err(e));
        },
    }
    let salt = match get_salt_for_username(username) {
        Ok(s) => s,
        Err(e) => {
            proof {
                lemma_first_index_count(user_names(), username@);
            }
            return (None, Err(ServerAcceptConnError::AuthenticationFailure(e)));
        },
    };
    proof {
        lemma_first_index_count(user_names(), username@);
    }
    let ack_payload = StartUpAckPayload::new(salt);
    let n = ack_payload.byte_length();
    let headers = StartUpAckHeaders::new_success(SERVER_PROTOCOL_VERSION, ANNOUNCED_DB_VERSION, n as u16);
    (Some(StartUpAck::new_success(headers, ack_payload)), Ok(username.to_owned()))
}

/// The server's answer to the authentication request of user `username`
/// whose hash is right: the success acknowledgement. (A wrong hash would be
/// answered with a failure acknowledgement, whose construction is not
/// defined.)
pub fn answer_auth_req(username: &str, auth_req: &AuthReq) -> (r: Result<AuthReqAck, ServerAcceptConnError>)
    requires
        first_index(user_names(), username@) matches Some(i) && auth_req.hashed_password@ == spec_sha256(
            hash_input(spec_user_table()[i].1, spec_user_table()[i].2),
        ),
    ensures
        r is Ok,
        r->Ok_0.header.is_authenticated && r->Ok_0.header.payload_length == 1,
        r->Ok_0.payload is Ok && r->Ok_0.payload->Ok_0.session_timeout_minutes == 5,
{
    match check_password(username, auth_req.hashed_password) {
        Ok(()) => Ok(AuthReqAck::new_success()),
        Err(err) => Err(ServerAcceptConnError::AuthenticationFailure(err)),
    }
}

/// Checks the hash in the authentication request of user `username`: a
/// right hash is answered with the success acknowledgement, any other is
/// refused with the error of `check_password` (and the connection cannot be
/// answered).
pub fn respond_to_auth_req(username: &str, auth_req: &AuthReq) -> (r: Result<AuthReqAck, AuthError>)
    ensures
        match first_index(user_names(), username@) {
            Some(i) => if auth_req.hashed_password@ == spec_sha256(
                hash_input(spec_user_table()[i].1, spec_user_table()[i].2),
            ) {
                r is Ok && r->Ok_0.header.is_authenticated && r->Ok_0.header.payload_length == 1
                    && r->Ok_0.payload is Ok && r->Ok_0.payload->Ok_0.session_timeout_minutes == 5
            } else {
                r matches Err(AuthError::InvalidPassword)
            },
            None => r matches Err(AuthError::UnknownUser { name }) && name@ == username@,
        },
{
    match check_password(username, auth_req.hashed_password) {
        Ok(()) => match answer_auth_req(username, auth_req) {
            Ok(ack) => Ok(ack),
            Err(_) => Err(AuthError::InvalidPassword),
        },
        Err(e) => Err(e),
    }
}

} // verus!
