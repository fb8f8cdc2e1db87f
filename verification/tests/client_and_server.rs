use selia::base_types::Serializable;
use selia::errors::{FromBytesError, U8EnumConversionError};
use selia::server::accept::{answer_startup, respond_to_auth_req, ANNOUNCED_DB_VERSION};
use selia::server::connection::ConnStatus;
use selia::server::open_connections::{ConnectionInfo, OpenConnections};
use selia::server::protocol::auth_req::AuthReq;
use selia::server::protocol::messages::{FromMessageError, MessageKind, SendMessageError};
use selia::server::protocol::startup::StartUp;
use selia::server::protocol::startup_ack::{StartUpAckErr, StartUpAckErrReason};
use selia::server::utils::auth::hash_password;
use selia::server::utils::cli::{BadArgumentsError, CliArg};
use selia::server::utils::client_cli::ClientCliArgs;
use selia::server::utils::server_cli::ServerCliArgs;
use selia::db::db::Version;
use selia::server::utils::constants::{get_host_name_full, host_port_string};
use selia::server::utils::errors::{AuthError, ConnError, ServerAcceptConnError};
use selia::server::utils::ip::{parse_ipv4, Ipv4Addr};
use selia::scyfi::errors::SpawnWorkerError;

fn words(ws: &[&str]) -> Vec<String> {
    ws.iter().map(|s| s.to_string()).collect()
}

#[test]
fn host_name() {
    assert_eq!(get_host_name_full(), "127.0.0.1:2808");
    assert_eq!(host_port_string([10, 0, 255, 7], 80), "10.0.255.7:80");
}

#[test]
fn ipv4_texts() {
    assert_eq!(parse_ipv4("192.168.1.20"), Some(Ipv4Addr::new(192, 168, 1, 20)));
    assert_eq!(parse_ipv4("0.0.0.0"), Some(Ipv4Addr::new(0, 0, 0, 0)));
    assert_eq!(parse_ipv4("256.1.1.1"), None);
    assert_eq!(parse_ipv4("01.1.1.1"), None);
    assert_eq!(parse_ipv4("1.1.1"), None);
    assert_eq!(parse_ipv4("1.1.1.1.1"), None);
    assert_eq!(parse_ipv4("1.1.1."), None);
    assert_eq!(parse_ipv4("localhost"), None);
    assert_eq!(parse_ipv4("1.2.3.4 "), None);
}

#[test]
fn client_defaults() {
    let c = ClientCliArgs::from_cli_args(vec![]).unwrap();
    assert_eq!(c.requested_db, "test");
    assert_eq!(c.requested_host, Ipv4Addr::new(127, 0, 0, 1));
    assert_eq!(c.requested_port, 2808);
    assert_eq!(c.username, "Edos");
    assert_eq!(c.password, "password");
    assert_eq!(c.protocol_version, 1);
}

#[test]
fn client_arguments() {
    let c = ClientCliArgs::from_cli_args(words(&[
        "-db", "prod", "--host", "10.1.2.3", "-p", "9000", "-n", "Alice", "-pw", "secret", "-pv", "7",
    ]))
    .unwrap();
    assert_eq!(c.requested_db, "prod");
    assert_eq!(c.requested_host, Ipv4Addr::new(10, 1, 2, 3));
    assert_eq!(c.requested_port, 9000);
    assert_eq!(c.username, "Alice");
    assert_eq!(c.password, "secret");
    assert_eq!(c.protocol_version, 7);
    let c = ClientCliArgs::from_cli_args(words(&["--protocol", "abc"])).unwrap();
    assert_eq!(c.protocol_version, 1);
}

#[test]
fn client_argument_errors() {
    match ClientCliArgs::from_cli_args(words(&["--colour", "red"])).unwrap_err() {
        BadArgumentsError::UnknownArg(a) => assert_eq!(a.name, "--colour"),
        e => panic!("unexpected {:?}", e),
    }
    match ClientCliArgs::from_cli_args(words(&["-p", "1", "--port", "2"])).unwrap_err() {
        BadArgumentsError::DuplicateArg(a) => assert_eq!(a.name, "--port"),
        e => panic!("unexpected {:?}", e),
    }
    match ClientCliArgs::from_cli_args(words(&["-n", "a", "b"])).unwrap_err() {
        BadArgumentsError::TooManyValues { arg, expected } => {
            assert_eq!(arg.name, "-n");
            assert_eq!(expected, 1);
        }
        e => panic!("unexpected {:?}", e),
    }
    match ClientCliArgs::from_cli_args(words(&["-n"])).unwrap_err() {
        BadArgumentsError::NotEnoughValues { expected, .. } => assert_eq!(expected, 1),
        e => panic!("unexpected {:?}", e),
    }
    match ClientCliArgs::from_cli_args(words(&["-h", "localhost"])).unwrap_err() {
        BadArgumentsError::ParseError { target_type, .. } => {
            assert_eq!(target_type, "core::net::ip_addr::Ipv4Addr")
        }
        e => panic!("unexpected {:?}", e),
    }
    match ClientCliArgs::from_cli_args(words(&["-p", "70000"])).unwrap_err() {
        BadArgumentsError::ParseError { target_type, .. } => assert_eq!(target_type, "u16"),
        e => panic!("unexpected {:?}", e),
    }
}

fn arg(name: &str, values: &[&str]) -> CliArg {
    CliArg { name: name.to_string(), values: words(values) }
}

#[test]
fn bad_argument_texts() {
    assert_eq!(
        BadArgumentsError::UnknownArg(arg("-x", &[])).to_string(),
        "Bad cli args. Unknown argument: -x"
    );
    assert_eq!(
        BadArgumentsError::DuplicateArg(arg("-p", &["1"])).to_string(),
        "Bad cli args. Duplicate argument: -p"
    );
    assert_eq!(
        BadArgumentsError::TooManyValues { arg: arg("-n", &["a", "b"]), expected: 1 }.to_string(),
        "Bad cli args. Too many values for argument '-n'. Expected 1 arguments, got 2"
    );
    assert_eq!(
        BadArgumentsError::NotEnoughValues { arg: arg("-n", &[]), expected: 1 }.to_string(),
        "Bad cli args. Not enough values for argument '-n'. Expected 1 arguments, got 0"
    );
    assert_eq!(
        BadArgumentsError::ParseError { arg: arg("-p", &["x"]), target_type: "u16".to_string() }.to_string(),
        "Bad cli args. Failed to parse value '1' for -p: Could not convert to u16"
    );
}

#[test]
fn error_texts() {
    assert_eq!(AuthError::UnknownUser { name: "Bob".to_string() }.to_string(), "User 'Bob' is not known");
    assert_eq!(AuthError::InvalidPassword.to_string(), "Incorrect password");
    assert_eq!(FromBytesError::new().to_string(), "From bytes error: FromBytesError");
    assert_eq!(U8EnumConversionError::new(9).to_string(), "Converting 9 to an enum has failed.");
    assert_eq!(
        StartUpAckErr { reason: StartUpAckErrReason::MultipleConnections, err_msg: "x".to_string() }.to_string(),
        "Multiple connections: x"
    );
    assert_eq!(
        FromMessageError::WrongMessageKind { expected: MessageKind::ClientStartup, got: MessageKind::UnknownMessageType(9) }.to_string(),
        "Wrong message kind. Expected: 'ClientStartup', got 'UnknownMessageType(9)'"
    );
    assert_eq!(ConnError::ClientReadErr.to_string(), "Client read failed.");
    assert_eq!(
        ConnError::MessageConversion(FromBytesError::new()).to_string(),
        "Client message conversion failed: From bytes error: FromBytesError"
    );
    assert_eq!(
        ServerAcceptConnError::NonExistingDb("x".to_string()).to_string(),
        "Server refused connection due to non-existing db: database 'x' does not exist"
    );
    assert_eq!(
        ServerAcceptConnError::DuplicateConnection { username: "Edos".to_string(), existing_conn_id: 4 }.to_string(),
        "Server refused connection due to duplicate connection: connection for user 'Edos' already exists: 4"
    );
    assert_eq!(
        ServerAcceptConnError::AuthenticationFailure(AuthError::InvalidPassword).to_string(),
        "Server refused connection due to failed authentication: Incorrect password"
    );
    assert_eq!(SpawnWorkerError::MaxWorkersExceeded.to_string(), "Max workers exceeded");
}

#[test]
fn send_error_from_conn_error() {
    let e: SendMessageError = ConnError::ClientWriteErr.into();
    assert!(matches!(e, SendMessageError::Conn(ConnError::ClientWriteErr)));
    assert_eq!(ConnStatus::Idle, ConnStatus::Idle);
    assert_ne!(ConnStatus::Busy, ConnStatus::Closed);
}

fn open_with(name: &str, id: u64) -> OpenConnections {
    let mut open = OpenConnections::new();
    open.push_info(ConnectionInfo { username: name.to_string(), conn_id: id });
    open
}

#[test]
fn startup_of_a_connected_user_is_refused() {
    let su = StartUp::new(3, "Edos", "test");
    let (ack, outcome) = answer_startup(&su, &open_with("Edos", 1), 9);
    let ack = ack.unwrap();
    assert!(ack.header.is_error);
    assert_eq!(ack.header.version_ack, 3);
    assert_eq!(ack.header.db_version, ANNOUNCED_DB_VERSION);
    let err = ack.payload.unwrap_err();
    assert_eq!(err.err_msg, "Duplicate connection for Edos");
    assert_eq!(ack.header.payload_length as usize, err.byte_length());
    match outcome.unwrap_err() {
        ServerAcceptConnError::DuplicateConnection { username, existing_conn_id } => {
            assert_eq!(username, "Edos");
            assert_eq!(existing_conn_id, 9);
        }
        e => panic!("unexpected {:?}", e),
    }
}

#[test]
fn startup_of_a_known_user_gets_its_salt() {
    let su = StartUp::new(3, "Edos", "test");
    let (ack, outcome) = answer_startup(&su, &OpenConnections::new(), 9);
    let ack = ack.unwrap();
    assert!(!ack.header.is_error);
    assert_eq!(ack.header.version_ack, 1);
    assert_eq!(ack.header.payload_length, 2);
    assert_eq!(outcome.unwrap(), "Edos");
    let salt = ack.payload.unwrap().salt;
    let good = AuthReq { hashed_password: hash_password("password", salt) };
    let ack = respond_to_auth_req("Edos", &good).unwrap();
    assert!(ack.header.is_authenticated);
    let bad = AuthReq { hashed_password: hash_password("wrong", salt) };
    assert!(matches!(respond_to_auth_req("Edos", &bad), Err(AuthError::InvalidPassword)));
}

#[test]
fn startup_for_unknown_db_or_user() {
    let (ack, outcome) = answer_startup(&StartUp::new(1, "Edos", "nope"), &OpenConnections::new(), 1);
    assert!(ack.is_none());
    assert!(matches!(outcome, Err(ServerAcceptConnError::NonExistingDb(ref d)) if d == "nope"));
    let (ack, outcome) = answer_startup(&StartUp::new(1, "Mallory", "test"), &OpenConnections::new(), 1);
    assert!(ack.is_none());
    assert!(matches!(
        outcome,
        Err(ServerAcceptConnError::AuthenticationFailure(AuthError::UnknownUser { .. }))
    ));
}

#[test]
fn server_defaults() {
    let s = ServerCliArgs::from_cli_args(vec![]).unwrap();
    assert_eq!(s.addr.ip, Ipv4Addr::new(127, 0, 0, 1));
    assert_eq!(s.addr.port, 2808);
    assert_eq!(s.db_version, Version::new(0, 1));
    assert_eq!(s.selected_db, "test");
    assert_eq!(s.num_worker_threads, 3);
}

#[test]
fn server_arguments() {
    let s = ServerCliArgs::from_cli_args(words(&["-h", "10.0.0.9", "--port", "7000", "-w", "8"])).unwrap();
    assert_eq!(s.addr.ip, Ipv4Addr::new(10, 0, 0, 9));
    assert_eq!(s.addr.port, 7000);
    assert_eq!(s.num_worker_threads, 8);
    assert_eq!(s.db_version, Version::new(0, 1));
}

#[test]
fn server_argument_errors() {
    match ServerCliArgs::from_cli_args(words(&["--database", "x"])).unwrap_err() {
        BadArgumentsError::UnknownArg(a) => assert_eq!(a.name, "--database"),
        e => panic!("unexpected {:?}", e),
    }
    match ServerCliArgs::from_cli_args(words(&["-w", "300"])).unwrap_err() {
        BadArgumentsError::ParseError { arg, target_type } => {
            assert_eq!(arg.name, "-w");
            assert_eq!(target_type, "u8");
        }
        e => panic!("unexpected {:?}", e),
    }
    match ServerCliArgs::from_cli_args(words(&["-v", "1.0"])).unwrap_err() {
        BadArgumentsError::ParseError { target_type, .. } => {
            assert_eq!(target_type, "selia::db::db::Version")
        }
        e => panic!("unexpected {:?}", e),
    }
    match ServerCliArgs::from_cli_args(words(&["-p", "1", "-p", "2"])).unwrap_err() {
        BadArgumentsError::DuplicateArg(a) => assert_eq!(a.name, "-p"),
        e => panic!("unexpected {:?}", e),
    }
}

#[test]
fn numbers_read_as_from_str_reads_them() {
    let c = ClientCliArgs::from_cli_args(words(&["-p", "+8080", "-pv", "65535"])).unwrap();
    assert_eq!(c.requested_port, 8080);
    assert_eq!(c.protocol_version, 65535);
    assert!(ClientCliArgs::from_cli_args(words(&["-p", "65536"])).is_err());
    assert!(ClientCliArgs::from_cli_args(words(&["-p", "+"])).is_err());
    assert!(ClientCliArgs::from_cli_args(words(&["-p", "1a"])).is_err());
    let s = ServerCliArgs::from_cli_args(words(&["-w", "255"])).unwrap();
    assert_eq!(s.num_worker_threads, 255);
    assert!(ServerCliArgs::from_cli_args(words(&["-w", "256"])).is_err());
    assert!(ServerCliArgs::from_cli_args(words(&["-w", "-1"])).is_err());
}
