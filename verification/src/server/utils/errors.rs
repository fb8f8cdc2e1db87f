//! Errors of the client, the server and their connections.
use vstd::prelude::*;
use crate::errors::FromBytesError;
use crate::base_types::ConnectionId;
use crate::server::protocol::startup_ack::StartUpAckErr;
use crate::server::utils::cli::BadArgumentsError;

pub use crate::errors::U8EnumConversionError;

verus! {

/// An I/O error of the standard library, carried through unchanged.
#[verifier::external_type_specification]
#[verifier::external_body]
pub struct ExIoError(std::io::Error);

/// A channel receive error of the standard library, carried through unchanged.
#[verifier::external_type_specification]
#[verifier::external_body]
pub struct ExRecvError(std::sync::mpsc::RecvError);

/// Errors seen by a client.
#[derive(Debug)]
pub enum ClientError {
    ConnectionError(ConnError),
    InitError(BadArgumentsError),
    StartUpError(StartUpAckErr),
    MessageConversion(FromBytesError),
    ConnectionClosedError,
    ProtocolError(ProtocolError),
    AuthenticationError(AuthError),
}

/// Errors that stop the server.
#[derive(Debug)]
pub enum ServerError {
    ServerInit(ServerInitError),
    UnexpectedShutDown(ServerShutdownError),
}

/// Errors while the server starts.
#[derive(Debug)]
pub enum ServerInitError {
    ParseCliArgs(BadArgumentsError),
    IOError(std::io::Error),
}

/// Why a user could not be authenticated.
#[derive(Debug, Clone)]
pub enum AuthError {
    UnknownUser { name: String },
    InvalidPassword,
    InsufficientPermissions,
}

/// Errors of a connection.
#[derive(Debug)]
pub enum ConnError {
    NoTcpConnection,
    ClientWriteErr,
    ClientReadErr,
    EmptyMessage,
    FailedQueryResponse(std::sync::mpsc::RecvError),
    MessageConversion(FromBytesError),
}

#[derive(Debug)]
pub struct ServerShutdownError {}

/// Why the server refused a connection.
#[derive(Debug)]
pub enum ServerAcceptConnError {
    BadConnection(ConnError),
    DuplicateConnection { username: String, existing_conn_id: ConnectionId },
    MessageConversion(FromBytesError),
    AuthenticationFailure(AuthError),
    NonExistingDb(String),
    ReceivedInvalidStartup,
    InvalidAuthRequest,
}

/// Protocol violations seen by a client.
#[derive(Debug)]
pub enum ProtocolError {
    StartUpAckIsErr(StartUpAckErr),
}

} // verus!
