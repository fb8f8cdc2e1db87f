use selia::db::init_files::init_type_file;
use selia::errors::FromBytesError;
use selia::server::accept::{answer_startup, respond_to_auth_req};
use selia::server::client::{auth_ack_outcome, auth_req_for, check_startup_ack};
use selia::server::legacy::{acknowledgement, credentials, is_close_message, read_credentials};
use selia::scyfi::errors::SpawnWorkerError;
use selia::scyfi::runtime::new_worker_id;
use selia::server::open_connections::OpenConnections;
use selia::server::protocol::auth_req_ack::{AuthReqAck, AuthReqAckError, AuthReqAckHeader};
use selia::server::protocol::messages::AwaitMessageError;
use selia::server::protocol::startup::StartUp;
use selia::server::protocol::startup_ack::{
    StartUpAck, StartUpAckErr, StartUpAckErrReason, StartUpAckHeaders, StartUpAckPayload,
};
use selia::server::utils::auth::hash_password;
use selia::server::utils::cli::{BadArgumentsError, CliArg};
use selia::server::utils::errors::{
    AuthError, ClientError, ConnError, ProtocolError, ServerError, ServerInitError, ServerShutdownError,
};
use selia::types::type_management::TypeFile;

fn success_ack(salt: u16) -> StartUpAck {
    StartUpAck::new_success(StartUpAckHeaders::new_success(1, 12345, 2), StartUpAckPayload::new(salt))
}

fn error_ack() -> StartUpAck {
    let err = StartUpAckErr { reason: StartUpAckErrReason::MultipleConnections, err_msg: "dup".to_string() };
    StartUpAck::new_error(StartUpAckHeaders::new_error(1, 12345, 6), err)
}

#[test]
fn startup_ack_outcomes() {
    let ack = check_startup_ack(success_ack(7)).unwrap();
    assert_eq!(ack.payload.unwrap().salt, 7);
    match check_startup_ack(error_ack()).unwrap_err() {
        ClientError::StartUpError(e) => {
            assert_eq!(e.reason, StartUpAckErrReason::MultipleConnections);
            assert_eq!(e.err_msg, "dup");
        }
        e => panic!("unexpected {:?}", e),
    }
}

#[test]
fn auth_request_hashes_password_with_salt() {
    let req = auth_req_for("secret", success_ack(42)).unwrap();
    assert_eq!(req.hashed_password, hash_password("secret", 42));
    assert_ne!(req.hashed_password, hash_password("secret", 43));
    match auth_req_for("secret", error_ack()).unwrap_err() {
        ClientError::ProtocolError(ProtocolError::StartUpAckIsErr(e)) => assert_eq!(e.err_msg, "dup"),
        e => panic!("unexpected {:?}", e),
    }
}

#[test]
fn auth_ack_outcomes() {
    let ok = AuthReqAck::new_success();
    assert_eq!(auth_ack_outcome(ok).unwrap().session_timeout_minutes, 5);
    let refused = AuthReqAck {
        header: AuthReqAckHeader { is_authenticated: false, payload_length: 0 },
        payload: Err(AuthReqAckError { err_length: 0, err: AuthError::InvalidPassword }),
    };
    assert!(matches!(
        auth_ack_outcome(refused),
        Err(ClientError::AuthenticationError(AuthError::InvalidPassword))
    ));
}

#[test]
fn handshake_admits_each_user_with_own_password() {
    for (name, password) in [("Delcos", "password1"), ("Seja", "password2"), ("Edos", "password")] {
        let (ack, verdict) = answer_startup(&StartUp::new(1, name, "test"), &OpenConnections::new(), 3);
        assert_eq!(verdict.unwrap(), name);
        let ack = check_startup_ack(ack.unwrap()).unwrap();
        let req = auth_req_for(password, ack).unwrap();
        let answer = respond_to_auth_req(name, &req).unwrap();
        assert_eq!(auth_ack_outcome(answer).unwrap().session_timeout_minutes, 5);
    }
    let (ack, _) = answer_startup(&StartUp::new(1, "Seja", "products"), &OpenConnections::new(), 3);
    let req = auth_req_for("password1", ack.unwrap()).unwrap();
    assert!(matches!(respond_to_auth_req("Seja", &req), Err(AuthError::InvalidPassword)));
}

#[test]
fn new_type_file_is_empty() {
    let image = init_type_file();
    assert_eq!(image.len(), 1024 + 65535 + 1);
    assert!(image.iter().all(|b| *b == 0));
    let tf = TypeFile::new(image).unwrap();
    assert_eq!(tf.mr_id, 0);
}

#[test]
fn client_and_server_error_texts() {
    assert_eq!(
        ClientError::ConnectionClosedError.to_string(),
        "Client Error (ConnectionClosed): Connection to server has been closed unexpectedly"
    );
    assert_eq!(
        ClientError::ConnectionError(ConnError::NoTcpConnection).to_string(),
        "Client Error (Connection): No tcp connection established."
    );
    assert_eq!(
        ClientError::AuthenticationError(AuthError::InvalidPassword).to_string(),
        "Client Error (Autentication): Incorrect password"
    );
    let err = StartUpAckErr { reason: StartUpAckErrReason::Default, err_msg: "x".to_string() };
    assert_eq!(ClientError::StartUpError(err.clone()).to_string(), "Client Error (Startup): Default err: x");
    assert!(ClientError::ProtocolError(ProtocolError::StartUpAckIsErr(err))
        .to_string()
        .starts_with("Client Error (Protocol): Startup ack was error: StartUpAckErr"));
    let bad = BadArgumentsError::UnknownArg(CliArg { name: "-x".to_string(), values: vec![] });
    assert_eq!(
        ServerError::ServerInit(ServerInitError::ParseCliArgs(bad)).to_string(),
        "Server Error (Initialization failed): Parsing CLI arguments has failed: Bad cli args. Unknown argument: -x"
    );
    assert_eq!(
        ServerError::UnexpectedShutDown(ServerShutdownError {}).to_string(),
        "Server Error (Unexpected shut down): ServerShutdownError"
    );
    let io = std::io::Error::new(std::io::ErrorKind::Other, "disk gone");
    assert_eq!(
        ServerInitError::IOError(io).to_string(),
        "IO Error in Initialization: disk gone"
    );
    assert_eq!(
        AwaitMessageError::MessageConversionError(FromBytesError::new()).to_string(),
        "awaiting failed due to message conversion: From bytes error: FromBytesError"
    );
    let e: AwaitMessageError = FromBytesError::new().into();
    assert!(matches!(e, AwaitMessageError::MessageConversionError(_)));
}

#[test]
fn plain_text_credentials() {
    let msg = "Client acknowledges connection & wishes to authenticate with user='admin', password='super_secret_password'";
    let (u, p) = credentials(msg);
    assert_eq!(u, "user='admin', ");
    assert_eq!(p, "password='super_secret_password'");
    let (u, p) = read_credentials(msg.as_bytes()).unwrap();
    assert_eq!(u, "user='admin', ");
    assert_eq!(p, "password='super_secret_password'");
    let (u, p) = read_credentials(b"\xffuser=\xfeb password=x").unwrap();
    assert_eq!(u, "user=\u{fffd}b ");
    assert_eq!(p, "password=x");
    assert!(read_credentials(b"password=x user=y").is_none());
    assert!(read_credentials(b"user=y").is_none());
    assert!(read_credentials(b"nothing here").is_none());
}

#[test]
fn plain_text_acknowledgement_and_close() {
    assert_eq!(acknowledgement(), "Connection acknowledged: b5e4324d-e136-42a4-bcdf-6e97ade63ce3");
    assert!(is_close_message(b"Close the connection NOW!"));
    assert!(!is_close_message(b"Close the connection NOW"));
    assert!(!is_close_message(b"GET NODE 1"));
}

#[test]
fn worker_capacity() {
    assert_eq!(new_worker_id(2, 3).unwrap(), 4);
    assert_eq!(new_worker_id(3, 3).unwrap(), 4);
    assert!(matches!(new_worker_id(4, 3), Err(SpawnWorkerError::MaxWorkersExceeded)));
}

#[test]
fn refused_failed_query_text() {
    let e = selia::server::utils::errors::ServerAcceptConnError::BadConnection(ConnError::FailedQueryResponse(
        std::sync::mpsc::RecvError,
    ));
    assert_eq!(
        e.to_string(),
        "Server refused connection due to failed connection: Client received erroneous query response: receiving on a closed channel"
    );
    let c = ClientError::ConnectionError(ConnError::FailedQueryResponse(std::sync::mpsc::RecvError));
    assert_eq!(
        c.to_string(),
        "Client Error (Connection): Client received erroneous query response: receiving on a closed channel"
    );
}
