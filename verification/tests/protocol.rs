use selia::base_types::{QueryResponsePackage, QueryResponsePackageType, Serializable};
use selia::server::protocol::messages::{Message, MessageHeader, MessageKind, MessageAble};
use selia::server::protocol::startup::{StartUp, StartUpHeader, StartUpPayload};
use selia::server::protocol::startup_ack::{
    StartUpAck, StartUpAckErr, StartUpAckErrReason, StartUpAckHeaders, StartUpAckPayload,
};
use selia::server::protocol::auth_req::AuthReq;
use selia::server::protocol::auth_req_ack::AuthReqAck;
use selia::server::utils::types::Encoding;
use selia::server::serialization::{string_from_bytes, string_to_bytes};

#[test]
fn startup_serialization() {
    let su = {
        let payload = StartUpPayload {
            username: "EdosWhoo".to_string(),
            requested_db_name: "client_db".to_string(),
        };
        let header = StartUpHeader {
            version: u16::MAX,
            encoding: Encoding::Default,
            payload_length: payload.byte_length().try_into().unwrap(),
        };
        StartUp { header, payload }
    };

    let bytes = su.to_bytes();
    let new_su = StartUp::from_bytes(&bytes).unwrap();
    assert_eq!(su, new_su);
}

#[test]
fn startup_payload_serialize() {
    let payload = StartUpPayload {
        username: "Edos".to_string(),
        requested_db_name: "My_DB".to_string(),
    };
    let ir = payload.to_bytes();
    let new_payload = StartUpPayload::from_bytes(ir.as_slice()).unwrap();
    assert_eq!(payload, new_payload)
}

#[test]
fn startup_ack_serialization_success() {
    let payload = StartUpAckPayload { salt: u16::MAX };
    let header = StartUpAckHeaders {
        db_version: 1,
        version_ack: 2,
        is_error: false,
        payload_length: payload.byte_length().try_into().unwrap(),
    };
    let su_ack = StartUpAck {
        header,
        payload: Ok(payload),
    };
    let bytes = su_ack.to_bytes();
    let new_su_ack = StartUpAck::from_bytes(&bytes).unwrap();
    assert_eq!(su_ack, new_su_ack);
}

#[test]
fn startup_ack_serialization_err() {
    let payload = StartUpAckErr {
        reason: StartUpAckErrReason::Default,
        err_msg: "Some error message".to_string(),
    };
    let header = StartUpAckHeaders {
        db_version: 1,
        version_ack: 2,
        is_error: true,
        payload_length: payload.byte_length().try_into().unwrap(),
    };
    let su_ack = StartUpAck {
        header,
        payload: Err(payload),
    };
    let bytes = su_ack.to_bytes();
    let new_su_ack = StartUpAck::from_bytes(&bytes).unwrap();
    assert_eq!(su_ack, new_su_ack);
}

#[test]
fn startup_ack_headers_serialization() {
    let headers = StartUpAckHeaders {
        version_ack: u16::MAX,
        db_version: u16::MAX,
        is_error: false,
        payload_length: u16::MAX,
    };
    let bytes = headers.to_bytes();
    let new_headers = StartUpAckHeaders::from_bytes(&bytes).unwrap();
    assert_eq!(headers, new_headers);
}

#[test]
fn startup_ack_payload_serialization_success() {
    let payload = StartUpAckPayload { salt: u16::MAX };
    let bytes = payload.to_bytes();
    let new_payload = StartUpAckPayload::from_bytes(&bytes).unwrap();
    assert_eq!(payload, new_payload);
}

#[test]
fn startup_ack_err_serialization() {
    let su_ack_err = StartUpAckErr {
        reason: StartUpAckErrReason::Default,
        err_msg: "Some Error message.".to_string(),
    };
    let bytes = su_ack_err.to_bytes();
    let new_su_ack_err = StartUpAckErr::from_bytes(&bytes).unwrap();
    assert_eq!(su_ack_err, new_su_ack_err);
}

#[test]
fn startup_header_exact_bytes() {
    let h = StartUpHeader::new(0x0102, 0x0304);
    assert_eq!(h.to_bytes(), vec![0x02, 0x01, 0x00, 0x04, 0x03]);
}

#[test]
fn startup_new_records_payload_length() {
    let su = StartUp::new(7, "ab", "xyz");
    // one length byte for each name, then "ab" and "xyz"
    assert_eq!(su.header.payload_length, 7);
    assert_eq!(su.extract_payload().username, "ab");
    assert_eq!(
        su.to_bytes(),
        vec![7, 0, 0, 7, 0, 2, 3, b'a', b'b', b'x', b'y', b'z']
    );
    let long = "n".repeat(255);
    let su = StartUp::new(1, &long, "d");
    assert_eq!(su.header.payload_length, 2 + 255 + 1);
    assert_eq!(StartUp::from_bytes(&su.to_bytes()).unwrap(), su);
}

#[test]
fn startup_header_bad_encoding_panics_not() {
    // encoding byte 0 is the only encoding; the header decodes regardless of trailing bytes
    let h = StartUpHeader::from_bytes(&[1, 0, 0, 5, 0, 9, 9]).unwrap();
    assert_eq!(h.version, 1);
    assert_eq!(h.payload_length, 5);
}

#[test]
fn string_roundtrip_multibyte() {
    let b = string_to_bytes("héllo");
    assert_eq!(b[0], 6);
    assert_eq!(b[1], 0);
    let (s, end) = string_from_bytes(&b, 0);
    assert_eq!(s, "héllo");
    assert_eq!(end, 8);
}

#[test]
fn startup_ack_err_unknown_reason_is_error() {
    assert!(StartUpAckErr::from_bytes(&[7, 0, 0]).is_err());
}

#[test]
fn message_header_roundtrip_and_unknown_kind() {
    let h = MessageHeader::new(MessageKind::ClientAuthReq, 0x1234, 1);
    let b = h.to_bytes();
    assert_eq!(b, vec![2, 0x34, 0x12, 1, 0]);
    let back = MessageHeader::from_bytes(&b).unwrap();
    assert_eq!(back.kind, MessageKind::ClientAuthReq);
    assert_eq!(back.header_length, 0x1234);
    assert!(MessageHeader::from_bytes(&[9]).is_err());
}

#[test]
fn message_roundtrip() {
    let m = Message::new(MessageKind::ServerQueryResponse, vec![1, 2], vec![3, 4, 5]);
    let b = m.to_bytes();
    assert_eq!(b, vec![5, 2, 0, 3, 0, 1, 2, 3, 4, 5]);
    let back = Message::from_bytes(&b).unwrap();
    assert_eq!(back.header, vec![1, 2]);
    assert_eq!(back.payload, vec![3, 4, 5]);
    assert_eq!(back.message_header.payload_length, 3);
}

#[test]
fn startup_message_roundtrip_and_wrong_kind() {
    let su = StartUp::new(3, "Edos", "test");
    let m = su.clone().to_message();
    assert_eq!(m.message_header.kind, MessageKind::ClientStartup);
    let back = StartUp::from_message(m).unwrap();
    assert_eq!(back, su);
    let other = Message::new(MessageKind::ClientQueryReq, vec![], vec![]);
    assert!(StartUp::from_message(other).is_err());
}

#[test]
fn startup_ack_message_roundtrip() {
    let ack = StartUpAck::new_success(StartUpAckHeaders::new_success(1, 2, 2), StartUpAckPayload::new(99));
    assert!(!ack.is_error());
    let m = ack.to_message();
    let back = StartUpAck::from_message(m).unwrap();
    assert_eq!(back.payload, Ok(StartUpAckPayload::new(99)));
}

#[test]
fn auth_req_roundtrip() {
    let mut h = [0u8; 32];
    h[0] = 7;
    h[31] = 9;
    let a = AuthReq::new(h);
    let back = AuthReq::from_bytes(&a.to_bytes()).unwrap();
    assert_eq!(back.hashed_password, h);
    let m = AuthReq::new(h).to_message();
    assert_eq!(m.message_header.kind, MessageKind::ClientAuthReq);
    assert_eq!(AuthReq::from_message(m).unwrap().hashed_password, h);
}

#[test]
fn auth_req_ack_success_bytes() {
    let a = AuthReqAck::new_success();
    let b = a.to_bytes();
    assert_eq!(b, vec![1, 1, 0, 5]);
    let back = AuthReqAck::from_bytes(&b).unwrap();
    assert!(back.header.is_authenticated);
    assert_eq!(back.payload.unwrap().session_timeout_minutes, 5);
}

#[test]
fn checked_message_framing() {
    assert!(Message::checked_from_bytes(&[0, 0, 0]).is_none());
    let m = Message::checked_from_bytes(&[0, 1, 0, 2, 0, 9, 7, 8]).unwrap().unwrap();
    assert_eq!(m.message_header.kind, MessageKind::ClientStartup);
    assert_eq!(m.header, vec![9]);
    assert_eq!(m.payload, vec![7, 8]);
    assert!(Message::checked_from_bytes(&[0, 1, 0, 2, 0, 9, 7]).is_none());
    assert!(Message::checked_from_bytes(&[9, 1, 0, 0, 0]).unwrap().is_err());
}

#[test]
fn checked_startup_decoding() {
    let s = StartUp::checked_from_message(StartUp::new(1, "ann", "db").to_message()).unwrap().unwrap();
    assert_eq!(s.payload.username, "ann");
    assert_eq!(s.payload.requested_db_name, "db");
    let other_encoding = Message::new(MessageKind::ClientStartup, vec![1, 0, 1, 7, 0], vec![3, 2, b'a', b'n', b'n', b'd', b'b']);
    assert!(StartUp::checked_from_message(other_encoding).is_none());
    let not_utf8 = Message::new(MessageKind::ClientStartup, vec![1, 0, 0, 4, 0], vec![1, 1, 0xff, b'a']);
    assert!(StartUp::checked_from_message(not_utf8).is_none());
    let names_too_long = Message::new(MessageKind::ClientStartup, vec![1, 0, 0, 4, 0], vec![2, 1, b'a', b'a']);
    assert!(StartUp::checked_from_message(names_too_long).is_none());
    let lengths_disagree = Message::new(MessageKind::ClientStartup, vec![1, 0, 0, 5, 0], vec![1, 1, b'a', b'b']);
    assert!(StartUp::checked_from_message(lengths_disagree).is_none());
    let wrong_kind = Message::new(MessageKind::ClientAuthReq, vec![], vec![]);
    assert!(StartUp::checked_from_message(wrong_kind).unwrap().is_err());
}

#[test]
fn checked_startup_ack_decoding() {
    let ok = StartUpAck::new_success(StartUpAckHeaders::new_success(1, 12345, 2), StartUpAckPayload::new(7));
    let a = StartUpAck::checked_from_message(ok.to_message()).unwrap().unwrap();
    assert_eq!(a.payload.unwrap().salt, 7);
    let unknown_reason = Message::new(MessageKind::ServerStartupAck, vec![1, 0, 0, 0, 1, 1, 0], vec![2]);
    assert!(StartUpAck::checked_from_message(unknown_reason).unwrap().is_err());
    let cut_text = Message::new(MessageKind::ServerStartupAck, vec![1, 0, 0, 0, 1, 4, 0], vec![0, 5, 0, b'a']);
    assert!(StartUpAck::checked_from_message(cut_text).is_none());
    let err = Message::new(MessageKind::ServerStartupAck, vec![1, 0, 0, 0, 1, 4, 0], vec![1, 1, 0, b'a']);
    let e = StartUpAck::checked_from_message(err).unwrap().unwrap();
    assert_eq!(e.payload.unwrap_err().err_msg, "a");
    let long_salt = Message::new(MessageKind::ServerStartupAck, vec![1, 0, 0, 0, 0, 3, 0], vec![1, 2, 3]);
    assert!(StartUpAck::checked_from_message(long_salt).is_none());
    let short_header = Message::new(MessageKind::ServerStartupAck, vec![1, 0, 0, 0, 0], vec![1, 2]);
    assert!(StartUpAck::checked_from_message(short_header).is_none());
    let wrong_kind = Message::new(MessageKind::ClientStartup, vec![1, 0, 0, 0, 0, 2, 0], vec![1, 2]);
    assert!(StartUpAck::checked_from_message(wrong_kind).is_none());
}

#[test]
fn checked_auth_and_package_decoding() {
    let hash: Vec<u8> = (0..32).collect();
    let r = AuthReq::checked_from_message(Message::new(MessageKind::ClientAuthReq, vec![], hash.clone())).unwrap().unwrap();
    assert_eq!(r.hashed_password.to_vec(), hash);
    assert!(AuthReq::checked_from_message(Message::new(MessageKind::ClientAuthReq, vec![], vec![0; 31])).is_none());
    let ack = AuthReqAck::checked_from_bytes(&[1, 1, 0, 5]).unwrap().unwrap();
    assert_eq!(ack.payload.unwrap().session_timeout_minutes, 5);
    assert!(AuthReqAck::checked_from_bytes(&[0, 1, 0, 5]).is_none());
    assert!(AuthReqAck::checked_from_bytes(&[1, 1, 0]).is_none());
    let p = QueryResponsePackage::checked_from_bytes(&[2, 2, 0, b'h', b'i']).unwrap().unwrap();
    assert_eq!(p.package_type, QueryResponsePackageType::Debug);
    assert_eq!(p.payload, b"hi".to_vec());
    assert!(QueryResponsePackage::checked_from_bytes(&[7, 0, 0]).is_none());
    assert!(QueryResponsePackage::checked_from_bytes(&[2, 3, 0, 1]).is_none());
    assert!(QueryResponsePackage::checked_from_bytes(&[2]).is_none());
}
