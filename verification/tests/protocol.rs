//! The lobby registration protocol: frame round trips, each decoder error,
//! and the client's reading of the server's reply.

use xshm::{
    decode_request, decode_response, encode_request, encode_response, parse_registration_reply,
    RegistrationRequest, RegistrationResponse, ShmError, STATUS_OK, STATUS_REJECTED,
};

#[test]
fn request_roundtrip() {
    let req = RegistrationRequest {
        pid: 12345,
        bits: 32,
        revision: 7,
        name: b"l2.exe".to_vec(),
    };
    let encoded = encode_request(&req);
    let decoded = decode_request(&encoded).unwrap();
    assert_eq!(decoded.pid, 12345);
    assert_eq!(decoded.bits, 32);
    assert_eq!(decoded.revision, 7);
    assert_eq!(decoded.name, b"l2.exe".to_vec());
}

#[test]
fn response_roundtrip() {
    let resp = RegistrationResponse {
        status: STATUS_OK,
        client_id: 42,
        channel_name: b"NxT_a7f3b2c1".to_vec(),
    };
    let encoded = encode_response(&resp);
    let decoded = decode_response(&encoded).unwrap();
    assert_eq!(decoded.status, STATUS_OK);
    assert_eq!(decoded.client_id, 42);
    assert_eq!(decoded.channel_name, b"NxT_a7f3b2c1".to_vec());
}

#[test]
fn request_too_short() {
    assert!(decode_request(&[0; 10]).is_err());
}

#[test]
fn response_bad_magic() {
    let mut data = encode_response(&RegistrationResponse {
        status: 0,
        client_id: 1,
        channel_name: b"x".to_vec(),
    });
    data[0] = 0xFF;
    assert!(decode_response(&data).is_err());
}

#[test]
fn request_encoding_exact_bytes() {
    let req = RegistrationRequest {
        pid: 0x0403_0201,
        bits: 64,
        revision: 0x0201,
        name: b"ab".to_vec(),
    };
    let encoded = encode_request(&req);
    let expected: Vec<u8> = vec![
        0x44, 0x49, 0x53, 0x50, // magic "DISP" little-endian
        1,    // version
        1,    // request frame
        0x01, 0x02, 0x03, 0x04, // pid little-endian
        64,   // bits
        0x01, 0x02, // revision little-endian
        2,    // name length
        b'a', b'b',
    ];
    assert_eq!(encoded, expected);
}

#[test]
fn response_encoding_exact_bytes() {
    let resp = RegistrationResponse {
        status: 1,
        client_id: 0x0403_0201,
        channel_name: b"z".to_vec(),
    };
    let encoded = encode_response(&resp);
    let expected: Vec<u8> = vec![
        0x44, 0x49, 0x53, 0x50, // magic "DISP" little-endian
        1,    // version
        2,    // response frame
        1,    // status
        0x01, 0x02, 0x03, 0x04, // client id little-endian
        1,    // name length
        b'z',
    ];
    assert_eq!(encoded, expected);
}

#[test]
fn request_name_clipped_to_limit() {
    let req = RegistrationRequest {
        pid: 1,
        bits: 32,
        revision: 0,
        name: vec![b'n'; 100],
    };
    let encoded = encode_request(&req);
    let decoded = decode_request(&encoded).unwrap();
    assert_eq!(decoded.name.len(), 64);
}

#[test]
fn request_bad_version_rejected() {
    let req = RegistrationRequest {
        pid: 1,
        bits: 32,
        revision: 0,
        name: b"aa".to_vec(),
    };
    let mut encoded = encode_request(&req);
    encoded[4] = 9;
    assert_eq!(decode_request(&encoded).unwrap_err(), ShmError::HandshakeFailed);
}

#[test]
fn request_wrong_frame_type_rejected() {
    let req = RegistrationRequest {
        pid: 1,
        bits: 32,
        revision: 0,
        name: b"aa".to_vec(),
    };
    let mut encoded = encode_request(&req);
    encoded[5] = 2;
    assert_eq!(decode_request(&encoded).unwrap_err(), ShmError::HandshakeFailed);
}

#[test]
fn request_truncated_name_rejected() {
    let req = RegistrationRequest {
        pid: 1,
        bits: 32,
        revision: 0,
        name: b"abcdef".to_vec(),
    };
    let mut encoded = encode_request(&req);
    encoded.truncate(16);
    assert_eq!(decode_request(&encoded).unwrap_err(), ShmError::MessageTooSmall);
}

#[test]
fn response_bad_magic_is_corrupted() {
    let mut data = encode_response(&RegistrationResponse {
        status: STATUS_OK,
        client_id: 7,
        channel_name: b"c".to_vec(),
    });
    data[0] = 0xFF;
    assert_eq!(decode_response(&data).unwrap_err(), ShmError::Corrupted);
}

#[test]
fn registration_reply_accepted() {
    let data = encode_response(&RegistrationResponse {
        status: STATUS_OK,
        client_id: 9,
        channel_name: b"D_0011223344556677".to_vec(),
    });
    let (client_id, channel) = parse_registration_reply(&data).unwrap();
    assert_eq!(client_id, 9);
    assert_eq!(channel, b"D_0011223344556677".to_vec());
}

#[test]
fn registration_reply_rejected_status() {
    let data = encode_response(&RegistrationResponse {
        status: STATUS_REJECTED,
        client_id: 0,
        channel_name: Vec::new(),
    });
    assert_eq!(parse_registration_reply(&data).unwrap_err(), ShmError::HandshakeFailed);
}
