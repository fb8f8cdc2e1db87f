use selia::server::utils::auth::{
    check_password, check_requested_credentials, get_salt_for_username, get_users_password_hash,
    hash_password,
};
use selia::server::utils::cli::{prepare_cli_args, CliArg, ParseCliArgsError};
use selia::server::utils::errors::{AuthError, ServerAcceptConnError};
use selia::server::utils::mocks::{requested_db_exists, username_exists};
use selia::server::utils::types::Salt;
use selia::server::open_connections::{ConnectionInfo, OpenConnections};
use selia::server::query::{QueryRequest, QueryResponse, QueryResponsePackage, QueryResponsePackageType};
use selia::base_types::Serializable;

#[test]
fn test_auth() {
    let (username, pw) = ("super_secret_password", "user123");
    let salt: Salt = 4321;
    let client_side_hash = hash_password(pw, salt);
    println!("hash: {:?}", client_side_hash);

    let mocked_credentials = [
        ("user1", "a password"),
        ("user2", "another"),
        (username, pw),
    ];
    let matched_users = mocked_credentials
        .iter()
        .map(|(username, plain_pw)| (username, hash_password(plain_pw, salt)))
        .filter(|(_, hashed_pw)| *hashed_pw == client_side_hash)
        .collect::<Vec<_>>();
    assert_eq!(matched_users.len(), 1);
    let user = matched_users[0];
    assert_eq!(user.0, &username);
    assert_eq!(user.1, client_side_hash);
}

#[test]
fn test_auth_negative() {
    let (_username, pw) = ("super_secret_password", "user123");
    let salt: Salt = 4321;
    let client_side_hash = hash_password(pw, salt);
    println!("hash: {:?}", client_side_hash);

    let mocked_credentials = [("user1", "a password"), ("user2", "another")];
    let matched_users = mocked_credentials
        .iter()
        .map(|(username, plain_pw)| (username, hash_password(plain_pw, salt)))
        .filter(|(_, hashed_pw)| *hashed_pw == client_side_hash)
        .collect::<Vec<_>>();
    assert_eq!(matched_users.len(), 0);
}

#[test]
fn test_cli_prep() {
    let mocked_args = vec![
        String::from("--version"),
        String::from("13"),
        String::from("-p"),
        String::from("2809"),
        String::from("-h"),
        String::from("localhost"),
    ];
    let prepped_args = prepare_cli_args(mocked_args).unwrap();
    let expected = vec![
        CliArg {
            name: String::from("--version"),
            values: vec![String::from("13")],
        },
        CliArg {
            name: String::from("-p"),
            values: vec![String::from("2809")],
        },
        CliArg {
            name: String::from("-h"),
            values: vec![String::from("localhost")],
        },
    ];
    assert_eq!(prepped_args, expected);
}

#[test]
fn cli_prep_value_before_name_is_refused() {
    match prepare_cli_args(vec![String::from("13"), String::from("-p")]) {
        Err(ParseCliArgsError::NoNameSet(w)) => assert_eq!(w, "13"),
        other => panic!("unexpected {:?}", other),
    }
    assert_eq!(prepare_cli_args(vec![]).unwrap(), vec![]);
    let v = prepare_cli_args(vec![String::from("-a"), String::from("-b"), String::from("x"), String::from("y")]).unwrap();
    assert_eq!(v.len(), 2);
    assert!(v[0].values.is_empty());
    assert_eq!(v[1].values, vec![String::from("x"), String::from("y")]);
}

#[test]
fn hash_is_sha256_of_password_and_decimal_salt() {
    // sha256("password34567")
    let h = hash_password("password", 34567);
    let h2 = hash_password("password", 34568);
    assert_ne!(h, h2);
    assert_eq!(get_users_password_hash("Edos").unwrap(), h);
}

#[test]
fn salts_and_users() {
    assert_eq!(get_salt_for_username("Delcos").unwrap(), 12345);
    assert_eq!(get_salt_for_username("Seja").unwrap(), 23456);
    match get_salt_for_username("nobody") {
        Err(AuthError::UnknownUser { name }) => assert_eq!(name, "nobody"),
        _ => panic!(),
    }
    assert!(username_exists("Edos"));
    assert!(!username_exists("edos"));
    assert!(requested_db_exists("products"));
    assert!(!requested_db_exists("prod"));
}

#[test]
fn password_check() {
    let good = hash_password("password2", 23456);
    assert!(check_password("Seja", good).is_ok());
    assert!(matches!(check_password("Seja", [0u8; 32]), Err(AuthError::InvalidPassword)));
    assert!(matches!(check_password("ghost", good), Err(AuthError::UnknownUser { .. })));
}

#[test]
fn credentials_check_order() {
    assert!(check_requested_credentials("Edos", "test").is_ok());
    assert!(matches!(
        check_requested_credentials("nobody", "nodb"),
        Err(ServerAcceptConnError::NonExistingDb(_))
    ));
    assert!(matches!(
        check_requested_credentials("nobody", "test"),
        Err(ServerAcceptConnError::AuthenticationFailure(AuthError::UnknownUser { .. }))
    ));
}

#[test]
fn open_connections_ops() {
    let mut oc = OpenConnections::new();
    oc.push_info(ConnectionInfo { username: "a".to_string(), conn_id: 1 });
    oc.push_info(ConnectionInfo { username: "b".to_string(), conn_id: 2 });
    oc.push_info(ConnectionInfo { username: "c".to_string(), conn_id: 3 });
    assert_eq!(oc.contains_username("b"), (true, 2));
    assert_eq!(oc.contains_username("z"), (false, 0));
    let copy = oc.clone();
    let removed = oc.remove_by_id(2).unwrap();
    assert_eq!(removed.username, "b");
    assert!(oc.remove_by_id(2).is_none());
    assert_eq!(oc.conns.len(), 2);
    assert_eq!(copy.conns.len(), 3);
    oc.retain_other_ids(1);
    assert_eq!(oc.conns.len(), 1);
    assert_eq!(oc.conns[0].conn_id, 3);
}

#[test]
fn query_request_bytes() {
    let q = QueryRequest::new("GET NODE 1");
    assert_eq!(q.query_length, 10);
    let b = q.to_bytes();
    assert_eq!(b.len(), 12);
    assert_eq!(&b[0..2], &[10, 0]);
    // the decoder reads bytes[2..length]: the announced length counts from the start
    let back = QueryRequest::from_bytes(&b).unwrap();
    assert_eq!(back.query, "GET NODE");
    assert!(QueryRequest::from_bytes(&[]).is_err());
    assert!(QueryRequest::checked_from_bytes(&[5]).is_none());
}

#[test]
fn query_response_package_roundtrip() {
    let p = QueryResponsePackage::new(QueryResponsePackageType::Row, vec![9, 8, 7]);
    let b = p.to_bytes();
    assert_eq!(b, vec![3, 3, 0, 9, 8, 7]);
    let back = QueryResponsePackage::from_bytes(&b).unwrap();
    assert_eq!(back.package_type, QueryResponsePackageType::Row);
    assert_eq!(back.payload, vec![9, 8, 7]);
    let r = QueryResponse::new();
    assert_eq!(r.packages[0].payload, b"Hello world from worker thread".to_vec());
    assert!(QueryResponsePackageType::try_from(5).is_err());
}
