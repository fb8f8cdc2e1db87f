//! The texts of the errors of the client, the server and the protocol.
use vstd::prelude::*;
use vstd::string::*;
use crate::encoding::{decimal_chars, push_decimal_str};
use crate::errors::{FromBytesError, U8EnumConversionError};
use crate::server::protocol::messages::{AwaitMessageError, FromMessageError, MessageKind};
use crate::server::protocol::startup_ack::{StartUpAckErr, StartUpAckErrReason};
use crate::server::utils::cli::BadArgumentsError;
use crate::server::utils::errors::{
    AuthError,
    ClientError,
    ConnError,
    ProtocolError,
    ServerAcceptConnError,
    ServerError,
    ServerInitError,
    ServerShutdownError,
};

verus! {

pub open spec fn auth_error_text(e: AuthError) -> Seq<char> {
    match e {
        AuthError::UnknownUser { name } => "User '"@ + name@ + "' is not known"@,
        AuthError::InvalidPassword => "Incorrect password"@,
        AuthError::InsufficientPermissions => "User does not have sufficient permissions"@,
    }
}

impl AuthError {
    pub fn to_string(&self) -> (r: String)
        ensures
            r@ == auth_error_text(*self),
    {
        match self {
            AuthError::UnknownUser { name } => {
                let mut s = "User '".to_owned();
                s.append(name.as_str());
                s.append("' is not known");
                s
            },
            AuthError::InvalidPassword => "Incorrect password".to_owned(),
            AuthError::InsufficientPermissions => "User does not have sufficient permissions".to_owned(),
        }
    }
}

pub open spec fn from_bytes_error_text() -> Seq<char> {
    "From bytes error: FromBytesError"@
}

impl FromBytesError {
    pub fn to_string(&self) -> (r: String)
        ensures
            r@ == from_bytes_error_text(),
    {
        "From bytes error: FromBytesError".to_owned()
    }
}

impl U8EnumConversionError {
    pub fn to_string(&self) -> (r: String)
        ensures
            r@ == "Converting "@ + decimal_chars(self.invalid_value as nat) + " to an enum has failed."@,
    {
        let mut s = "Converting ".to_owned();
        push_decimal_str(&mut s, self.invalid_value as u64);
        s.append(" to an enum has failed.");
        s
    }
}

pub open spec fn startup_ack_err_text(e: StartUpAckErr) -> Seq<char> {
    match e.reason {
        StartUpAckErrReason::Default => "Default err: "@ + e.err_msg@,
        StartUpAckErrReason::MultipleConnections => "Multiple connections: "@ + e.err_msg@,
    }
}

impl StartUpAckErr {
    pub fn to_string(&self) -> (r: String)
        ensures
            r@ == startup_ack_err_text(*self),
    {
        let mut s = match self.reason {
            StartUpAckErrReason::Default => "Default err: ".to_owned(),
            StartUpAckErrReason::MultipleConnections => "Multiple connections: ".to_owned(),
        };
        s.append(self.err_msg.as_str());
        s
    }
}

/// The name of a message kind, as its debug form writes it.
pub open spec fn kind_text(k: MessageKind) -> Seq<char> {
    match k {
        MessageKind::ClientStartup => "ClientStartup"@,
        MessageKind::ServerStartupAck => "ServerStartupAck"@,
        MessageKind::ClientAuthReq => "ClientAuthReq"@,
        MessageKind::ServerAuthReqAck => "ServerAuthReqAck"@,
        MessageKind::ClientQueryReq => "ClientQueryReq"@,
        MessageKind::ServerQueryResponse => "ServerQueryResponse"@,
        MessageKind::UnknownMessageType(b) => "UnknownMessageType("@ + decimal_chars(b as nat) + ")"@,
    }
}

fn push_kind(s: &mut String, k: MessageKind)
    ensures
        final(s)@ == old(s)@ + kind_text(k),
{
    match k {
        MessageKind::ClientStartup => s.append("ClientStartup"),
        MessageKind::ServerStartupAck => s.append("ServerStartupAck"),
        MessageKind::ClientAuthReq => s.append("ClientAuthReq"),
        MessageKind::ServerAuthReqAck => s.append("ServerAuthReqAck"),
        MessageKind::ClientQueryReq => s.append("ClientQueryReq"),
        MessageKind::ServerQueryResponse => s.append("ServerQueryResponse"),
        MessageKind::UnknownMessageType(b) => {
            s.append("UnknownMessageType(");
            push_decimal_str(s, b as u64);
            s.append(")");
        },
    }
}

pub open spec fn from_message_error_text(e: FromMessageError) -> Seq<char> {
    match e {
        FromMessageError::WrongMessageKind { expected, got } => "Wrong message kind. Expected: '"@
            + kind_text(expected) + "', got '"@ + kind_text(got) + "'"@,
        FromMessageError::EmptyMessage => "Received empty message"@,
        FromMessageError::CastHeaderFailure => "Failed to cast header"@,
        FromMessageError::CastPayloadFailure => "Failed to cast payload"@,
    }
}

impl FromMessageError {
    pub fn to_string(&self) -> (r: String)
        ensures
            r@ == from_message_error_text(*self),
    {
        match self {
            FromMessageError::WrongMessageKind { expected, got } => {
                let mut s = "Wrong message kind. Expected: '".to_owned();
                push_kind(&mut s, *expected);
                s.append("', got '");
                push_kind(&mut s, *got);
                s.append("'");
                s
            },
            FromMessageError::EmptyMessage => "Received empty message".to_owned(),
            FromMessageError::CastHeaderFailure => "Failed to cast header".to_owned(),
            FromMessageError::CastPayloadFailure => "Failed to cast payload".to_owned(),
        }
    }
}

/// The text that a channel's receive error displays.
pub open spec fn closed_channel_text() -> Seq<char> {
    "receiving on a closed channel"@
}

/// The text of a connection error; for a failed query response the prefix
/// below is followed by the text of the channel's error.
pub open spec fn conn_error_text(e: ConnError) -> Seq<char> {
    match e {
        ConnError::NoTcpConnection => "No tcp connection established."@,
        ConnError::ClientWriteErr => "Client write failed."@,
        ConnError::ClientReadErr => "Client read failed."@,
        ConnError::EmptyMessage => "Received empty message"@,
        ConnError::FailedQueryResponse(_) => "Client received erroneous query response: "@ + closed_channel_text(),
        ConnError::MessageConversion(_) => "Client message conversion failed: "@ + from_bytes_error_text(),
    }
}

/// The text of a channel receive error, as its `Display` writes it: std's
/// `Display` for `std::sync::mpsc::RecvError` writes the fixed text
/// "receiving on a closed channel".
#[verifier::external_body]
fn recv_error_text(e: &std::sync::mpsc::RecvError) -> (r: String)
    ensures
        r@ == closed_channel_text(),
{
    e.to_string()
}

impl ConnError {
    pub fn to_string(&self) -> (r: String)
        ensures
            r@ == conn_error_text(*self),
    {
        match self {
            ConnError::NoTcpConnection => "No tcp connection established.".to_owned(),
            ConnError::ClientWriteErr => "Client write failed.".to_owned(),
            ConnError::ClientReadErr => "Client read failed.".to_owned(),
            ConnError::EmptyMessage => "Received empty message".to_owned(),
            ConnError::FailedQueryResponse(recv_err) => {
                let mut s = "Client received erroneous query response: ".to_owned();
                let t = recv_error_text(recv_err);
                s.append(t.as_str());
                s
            },
            ConnError::MessageConversion(conversion_err) => {
                let mut s = "Client message conversion failed: ".to_owned();
                let t = conversion_err.to_string();
                s.append(t.as_str());
                s
            },
        }
    }
}

pub open spec fn bad_arguments_text(e: BadArgumentsError) -> Seq<char> {
    match e {
        BadArgumentsError::UnknownArg(a) => "Bad cli args. Unknown argument: "@ + a.name@,
        BadArgumentsError::DuplicateArg(a) => "Bad cli args. Duplicate argument: "@ + a.name@,
        BadArgumentsError::TooManyValues { arg, expected } => "Bad cli args. Too many values for argument '"@
            + arg.name@ + "'. Expected "@ + decimal_chars(expected as nat) + " arguments, got "@
            + decimal_chars(arg.values@.len()),
        BadArgumentsError::NotEnoughValues { arg, expected } => "Bad cli args. Not enough values for argument '"@
            + arg.name@ + "'. Expected "@ + decimal_chars(expected as nat) + " arguments, got "@
            + decimal_chars(arg.values@.len()),
        BadArgumentsError::ParseError { arg, target_type } => "Bad cli args. Failed to parse value '"@
            + decimal_chars(arg.values@.len()) + "' for "@ + arg.name@ + ": Could not convert to "@
            + target_type@,
    }
}

impl BadArgumentsError {
    /// The text of the error. For a value that cannot be read it shows the
    /// number of values of the argument where the value would belong.
    pub fn to_string(&self) -> (r: String)
        ensures
            r@ == bad_arguments_text(*self),
    {
        match self {
            BadArgumentsError::UnknownArg(a) => {
                let mut s = "Bad cli args. Unknown argument: ".to_owned();
                s.append(a.name.as_str());
                s
            },
            BadArgumentsError::DuplicateArg(a) => {
                let mut s = "Bad cli args. Duplicate argument: ".to_owned();
                s.append(a.name.as_str());
                s
            },
            BadArgumentsError::TooManyValues { arg, expected } => {
                let mut s = "Bad cli args. Too many values for argument '".to_owned();
                s.append(arg.name.as_str());
                s.append("'. Expected ");
                push_decimal_str(&mut s, *expected as u64);
                s.append(" arguments, got ");
                push_decimal_str(&mut s, arg.values.len() as u64);
                s
            },
            BadArgumentsError::NotEnoughValues { arg, expected } => {
                let mut s = "Bad cli args. Not enough values for argument '".to_owned();
                s.append(arg.name.as_str());
                s.append("'. Expected ");
                push_decimal_str(&mut s, *expected as u64);
                s.append(" arguments, got ");
                push_decimal_str(&mut s, arg.values.len() as u64);
                s
            },
            BadArgumentsError::ParseError { arg, target_type } => {
                let mut s = "Bad cli args. Failed to parse value '".to_owned();
                push_decimal_str(&mut s, arg.values.len() as u64);
                s.append("' for ");
                s.append(arg.name.as_str());
                s.append(": Could not convert to ");
                s.append(target_type.as_str());
                s
            },
        }
    }
}

/// A refusal of the server: the reason, a colon and the detail.
pub open spec fn refused_text(reason: Seq<char>, detail: Seq<char>) -> Seq<char> {
    "Server refused connection due to "@ + reason + ": "@ + detail
}

fn refused(reason: &str, detail: &str) -> (r: String)
    ensures
        r@ == refused_text(reason@, detail@),
{
    let mut s = "Server refused connection due to ".to_owned();
    s.append(reason);
    s.append(": ");
    s.append(detail);
    s
}

/// The text of a refused connection; for a bad connection its detail is the
/// text of the connection error.
pub open spec fn accept_error_text(e: ServerAcceptConnError) -> Seq<char> {
    match e {
        ServerAcceptConnError::BadConnection(c) => refused_text("failed connection"@, conn_error_text(c)),
        ServerAcceptConnError::MessageConversion(_) => refused_text("failed connection"@, from_bytes_error_text()),
        ServerAcceptConnError::AuthenticationFailure(a) => refused_text("failed authentication"@, auth_error_text(a)),
        ServerAcceptConnError::NonExistingDb(db) => refused_text(
            "non-existing db"@,
            "database '"@ + db@ + "' does not exist"@,
        ),
        ServerAcceptConnError::DuplicateConnection { username, existing_conn_id } => refused_text(
            "duplicate connection"@,
            "connection for user '"@ + username@ + "' already exists: "@ + decimal_chars(existing_conn_id as nat),
        ),
        ServerAcceptConnError::ReceivedInvalidStartup => refused_text("invalid startup"@, "received invalid startup message"@),
        ServerAcceptConnError::InvalidAuthRequest => refused_text("invalid authentication request"@, "received invalid authentication request"@),
    }
}

impl ServerAcceptConnError {
    pub fn to_string(&self) -> (r: String)
        ensures
            r@ == accept_error_text(*self),
    {
        match self {
            ServerAcceptConnError::BadConnection(conn_err) => {
                let d = conn_err.to_string();
                refused("failed connection", d.as_str())
            },
            ServerAcceptConnError::MessageConversion(conversion_err) => {
                let d = conversion_err.to_string();
                refused("failed connection", d.as_str())
            },
            ServerAcceptConnError::AuthenticationFailure(auth_err) => {
                let d = auth_err.to_string();
                refused("failed authentication", d.as_str())
            },
            ServerAcceptConnError::NonExistingDb(db_name) => {
                let mut d = "database '".to_owned();
                d.append(db_name.as_str());
                d.append("' does not exist");
                refused("non-existing db", d.as_str())
            },
            ServerAcceptConnError::DuplicateConnection { username, existing_conn_id } => {
                let mut d = "connection for user '".to_owned();
                d.append(username.as_str());
                d.append("' already exists: ");
                push_decimal_str(&mut d, *existing_conn_id);
                refused("duplicate connection", d.as_str())
            },
            ServerAcceptConnError::ReceivedInvalidStartup => refused(
                "invalid startup",
                "received invalid startup message",
            ),
            ServerAcceptConnError::InvalidAuthRequest => refused(
                "invalid authentication request",
                "received invalid authentication request",
            ),
        }
    }
}

/// `t` begins with `p`.
pub open spec fn starts_with_text(t: Seq<char>, p: Seq<char>) -> bool {
    t.len() >= p.len() && t.subrange(0, p.len() as int) == p
}

/// `prefix` followed by `rest`; the result begins with `prefix`.
fn join(prefix: &str, rest: &str) -> (r: String)
    ensures
        r@ == prefix@ + rest@,
        starts_with_text(r@, prefix@),
{
    let mut s = prefix.to_owned();
    s.append(rest);
    assert(s@.subrange(0, prefix@.len() as int) =~= prefix@);
    s
}

/// The text of an I/O error, as its `Display` writes it.
#[verifier::external_body]
fn io_error_text(e: &std::io::Error) -> String {
    e.to_string()
}

/// The debug form of a start-up error, as its derived `Debug` writes it.
#[verifier::external_body]
fn startup_ack_err_debug(e: &StartUpAckErr) -> String {
    format!("{:?}", e)
}

impl ProtocolError {
    /// The text of the error; the refused acknowledgement error is shown in
    /// its debug form.
    pub fn to_string(&self) -> (r: String)
        ensures
            starts_with_text(r@, "Startup ack was error: "@),
    {
        match self {
            ProtocolError::StartUpAckIsErr(err) => {
                let d = startup_ack_err_debug(err);
                join("Startup ack was error: ", d.as_str())
            },
        }
    }
}

impl ServerShutdownError {
    pub fn to_string(&self) -> (r: String)
        ensures
            r@ == "ServerShutdownError"@,
    {
        "ServerShutdownError".to_owned()
    }
}

pub open spec fn server_init_error_prefix(e: ServerInitError) -> Seq<char> {
    match e {
        ServerInitError::ParseCliArgs(_) => "Parsing CLI arguments has failed: "@,
        ServerInitError::IOError(_) => "IO Error in Initialization: "@,
    }
}

impl ServerInitError {
    /// The text of the error; an I/O error is shown as its own text.
    pub fn to_string(&self) -> (r: String)
        ensures
            starts_with_text(r@, server_init_error_prefix(*self)),
            *self matches ServerInitError::ParseCliArgs(b) ==> r@ == server_init_error_prefix(*self)
                + bad_arguments_text(b),
    {
        match self {
            ServerInitError::ParseCliArgs(err) => {
                let d = err.to_string();
                join("Parsing CLI arguments has failed: ", d.as_str())
            },
            ServerInitError::IOError(err) => {
                let d = io_error_text(err);
                join("IO Error in Initialization: ", d.as_str())
            },
        }
    }
}

impl ServerError {
    pub fn to_string(&self) -> (r: String)
        ensures
            *self matches ServerError::ServerInit(e) ==> starts_with_text(
                r@,
                "Server Error (Initialization failed): "@ + server_init_error_prefix(e),
            ),
            *self matches ServerError::ServerInit(ServerInitError::ParseCliArgs(b)) ==> r@
                == "Server Error (Initialization failed): Parsing CLI arguments has failed: "@
                + bad_arguments_text(b),
            self is UnexpectedShutDown ==> r@
                == "Server Error (Unexpected shut down): ServerShutdownError"@,
    {
        match self {
            ServerError::ServerInit(init_err) => {
                let d = init_err.to_string();
                let r = join("Server Error (Initialization failed): ", d.as_str());
                proof {
                    reveal_strlit("Server Error (Initialization failed): ");
                    let p = "Server Error (Initialization failed): "@;
                    let q = server_init_error_prefix(*init_err);
                    assert(r@.subrange(0, (p + q).len() as int) =~= p + q);
                    if let ServerInitError::ParseCliArgs(b) = init_err {
                        reveal_strlit("Parsing CLI arguments has failed: ");
                        reveal_strlit(
                            "Server Error (Initialization failed): Parsing CLI arguments has failed: ",
                        );
                        assert(p + q =~= "Server Error (Initialization failed): Parsing CLI arguments has failed: "@);
                        assert(r@ =~= (p + q) + bad_arguments_text(*b));
                    }
                }
                r
            },
            ServerError::UnexpectedShutDown(shutdown_err) => {
                let d = shutdown_err.to_string();
                let r = join("Server Error (Unexpected shut down): ", d.as_str());
                proof {
                    reveal_strlit("Server Error (Unexpected shut down): ");
                    reveal_strlit("ServerShutdownError");
                    reveal_strlit("Server Error (Unexpected shut down): ServerShutdownError");
                }
                assert(r@ =~= "Server Error (Unexpected shut down): ServerShutdownError"@);
                r
            },
        }
    }
}

impl AwaitMessageError {
    pub fn to_string(&self) -> (r: String)
        ensures
            self is IO ==> starts_with_text(r@, "awaiting failed due to IO: "@),
            self is MessageConversionError ==> r@ == "awaiting failed due to message conversion: "@
                + from_bytes_error_text(),
    {
        match self {
            AwaitMessageError::IO(err) => {
                let d = io_error_text(err);
                join("awaiting failed due to IO: ", d.as_str())
            },
            AwaitMessageError::MessageConversionError(err) => {
                let d = err.to_string();
                join("awaiting failed due to message conversion: ", d.as_str())
            },
        }
    }
}

/// The text of a client error, where its parts are stated.
pub open spec fn client_error_text(e: ClientError) -> Seq<char> {
    match e {
        ClientError::ConnectionError(c) => "Client Error (Connection): "@ + conn_error_text(c),
        ClientError::InitError(b) => "Client Error (Init): "@ + bad_arguments_text(b),
        ClientError::StartUpError(s) => "Client Error (Startup): "@ + startup_ack_err_text(s),
        ClientError::MessageConversion(_) => "Client Error (Message Conversion): "@ + from_bytes_error_text(),
        ClientError::ConnectionClosedError => "Client Error (ConnectionClosed): Connection to server has been closed unexpectedly"@,
        ClientError::ProtocolError(_) => "Client Error (Protocol): Startup ack was error: "@,
        ClientError::AuthenticationError(a) => "Client Error (Autentication): "@ + auth_error_text(a),
    }
}

impl ClientError {
    /// The text of the error. For a protocol error, whose detail is the
    /// debug form of the refused acknowledgement, the text begins with the
    /// stated part.
    pub fn to_string(&self) -> (r: String)
        ensures
            starts_with_text(r@, client_error_text(*self)),
            !(self is ProtocolError) ==> r@ == client_error_text(*self),
    {
        match self {
            ClientError::ProtocolError(prot_err) => {
                let d = prot_err.to_string();
                let r = join("Client Error (Protocol): ", d.as_str());
                proof {
                    reveal_strlit("Client Error (Protocol): ");
                    reveal_strlit("Startup ack was error: ");
                    reveal_strlit("Client Error (Protocol): Startup ack was error: ");
                    let p = "Client Error (Protocol): "@;
                    let q = "Startup ack was error: "@;
                    assert(p + q =~= "Client Error (Protocol): Startup ack was error: "@);
                    assert(r@.subrange(0, (p + q).len() as int) =~= p + q);
                }
                r
            },
            ClientError::ConnectionError(conn_err) => {
                let d = conn_err.to_string();
                let r = join("Client Error (Connection): ", d.as_str());
                proof {
                    let p = "Client Error (Connection): "@;
                    let q = conn_error_text(*conn_err);
                    assert(r@.subrange(0, (p + q).len() as int) =~= p + q);
                }
                r
            },
            ClientError::InitError(bad_args_err) => {
                let d = bad_args_err.to_string();
                let r = join("Client Error (Init): ", d.as_str());
                assert(r@.subrange(0, r@.len() as int) =~= r@);
                r
            },
            ClientError::ConnectionClosedError => {
                let r = "Client Error (ConnectionClosed): Connection to server has been closed unexpectedly".to_owned();
                assert(r@.subrange(0, r@.len() as int) =~= r@);
                r
            },
            ClientError::StartUpError(su_err) => {
                let d = su_err.to_string();
                let r = join("Client Error (Startup): ", d.as_str());
                assert(r@.subrange(0, r@.len() as int) =~= r@);
                r
            },
            ClientError::MessageConversion(conversion_err) => {
                let d = conversion_err.to_string();
                let r = join("Client Error (Message Conversion): ", d.as_str());
                assert(r@.subrange(0, r@.len() as int) =~= r@);
                r
            },
            ClientError::AuthenticationError(auth_err) => {
                let d = auth_err.to_string();
                let r = join("Client Error (Autentication): ", d.as_str());
                assert(r@.subrange(0, r@.len() as int) =~= r@);
                r
            },
        }
    }
}

} // verus!
