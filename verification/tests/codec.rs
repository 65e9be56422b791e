//! Round trips and interoperability of the wire codec.

use greetd_client::frame::{
    decode_request_wire, decode_response_wire, encode_request_wire, encode_response_wire,
    DecodeError,
};
use greetd_client::proto::{AuthMessageType, ErrorType, Request, Response};
use greetd_ipc::codec::SyncCodec;

fn wire_request(req: &Request) -> Vec<u8> {
    encode_request_wire(req).expect("payload fits the length field")
}

fn wire_response(resp: &Response) -> Vec<u8> {
    encode_response_wire(resp).expect("payload fits the length field")
}

fn assert_request_round_trip(req: Request) {
    let bytes = wire_request(&req);
    let back = decode_request_wire(&bytes).expect("well-formed frame");
    match (&req, &back) {
        (Request::CreateSession { username: a }, Request::CreateSession { username: b }) => {
            assert_eq!(a, b)
        }
        (
            Request::PostAuthMessageResponse { response: a },
            Request::PostAuthMessageResponse { response: b },
        ) => assert_eq!(a, b),
        (
            Request::StartSession { cmd: c1, env: e1 },
            Request::StartSession { cmd: c2, env: e2 },
        ) => {
            assert_eq!(c1, c2);
            assert_eq!(e1, e2);
        }
        (Request::CancelSession, Request::CancelSession) => {}
        _ => panic!("request changed variant over the round trip"),
    }
}

fn assert_response_round_trip(resp: Response) {
    let bytes = wire_response(&resp);
    let back = decode_response_wire(&bytes).expect("well-formed frame");
    match (&resp, &back) {
        (Response::Success, Response::Success) => {}
        (
            Response::Error { error_type: t1, description: d1 },
            Response::Error { error_type: t2, description: d2 },
        ) => {
            assert_eq!(t1, t2);
            assert_eq!(d1, d2);
        }
        (
            Response::AuthMessage { auth_message_type: t1, auth_message: m1 },
            Response::AuthMessage { auth_message_type: t2, auth_message: m2 },
        ) => {
            assert_eq!(t1, t2);
            assert_eq!(m1, m2);
        }
        _ => panic!("response changed variant over the round trip"),
    }
}

#[test]
fn round_trip_create_session() {
    assert_request_round_trip(Request::CreateSession { username: "alice".to_owned() });
}

#[test]
fn round_trip_create_session_escapes() {
    for tricky in [
        "quote\" and backslash\\",
        "new\nline\ttab\rreturn",
        "control\u{1}\u{8}\u{c}\u{1f}chars",
        "unicode: héllo wörld \u{1F512}",
        "",
        "/slashes/are/plain/",
    ] {
        assert_request_round_trip(Request::CreateSession { username: tricky.to_owned() });
    }
}

#[test]
fn round_trip_post_auth_message_response() {
    assert_request_round_trip(Request::PostAuthMessageResponse {
        response: Some("hunter2".to_owned()),
    });
    assert_request_round_trip(Request::PostAuthMessageResponse { response: None });
}

#[test]
fn round_trip_start_session() {
    assert_request_round_trip(Request::StartSession {
        cmd: vec!["sway".to_owned(), "--unsupported-gpu".to_owned()],
        env: vec!["XDG_SESSION_TYPE=wayland".to_owned()],
    });
    assert_request_round_trip(Request::StartSession { cmd: vec![], env: vec![] });
    assert_request_round_trip(Request::StartSession {
        cmd: vec!["a b".to_owned(), "".to_owned(), "\"x\"".to_owned()],
        env: vec![],
    });
}

#[test]
fn round_trip_cancel_session() {
    assert_request_round_trip(Request::CancelSession);
}

#[test]
fn round_trip_responses() {
    assert_response_round_trip(Response::Success);
    assert_response_round_trip(Response::Error {
        error_type: ErrorType::Error,
        description: "the daemon fell over".to_owned(),
    });
    assert_response_round_trip(Response::Error {
        error_type: ErrorType::AuthError,
        description: "bad \"password\"\n".to_owned(),
    });
    for kind in [
        AuthMessageType::Visible,
        AuthMessageType::Secret,
        AuthMessageType::Info,
        AuthMessageType::Error,
    ] {
        assert_response_round_trip(Response::AuthMessage {
            auth_message_type: kind,
            auth_message: "Password: ".to_owned(),
        });
    }
}

#[test]
fn exact_bytes_cancel_session() {
    let bytes = wire_request(&Request::CancelSession);
    let payload = b"{\"type\":\"cancel_session\"}";
    assert_eq!(&bytes[0..4], (payload.len() as u32).to_le_bytes());
    assert_eq!(&bytes[4..], &payload[..]);
}

#[test]
fn exact_bytes_create_session() {
    let bytes = wire_request(&Request::CreateSession { username: "bob".to_owned() });
    let payload = b"{\"type\":\"create_session\",\"username\":\"bob\"}";
    assert_eq!(&bytes[0..4], (payload.len() as u32).to_le_bytes());
    assert_eq!(&bytes[4..], &payload[..]);
}

/// The frames this library writes are byte-identical to the frames the
/// existing protocol library writes, so an unmodified daemon reads them.
#[test]
fn interop_requests_match_reference_library() {
    let pairs: Vec<(Request, greetd_ipc::Request)> = vec![
        (
            Request::CreateSession { username: "alice".to_owned() },
            greetd_ipc::Request::CreateSession { username: "alice".to_owned() },
        ),
        (
            Request::CreateSession { username: "we\"ird\\na\nme\u{1}é".to_owned() },
            greetd_ipc::Request::CreateSession { username: "we\"ird\\na\nme\u{1}é".to_owned() },
        ),
        (
            Request::PostAuthMessageResponse { response: Some("s3cret".to_owned()) },
            greetd_ipc::Request::PostAuthMessageResponse { response: Some("s3cret".to_owned()) },
        ),
        (
            Request::PostAuthMessageResponse { response: None },
            greetd_ipc::Request::PostAuthMessageResponse { response: None },
        ),
        (
            Request::StartSession {
                cmd: vec!["sway".to_owned()],
                env: vec!["A=b".to_owned(), "C=d".to_owned()],
            },
            greetd_ipc::Request::StartSession {
                cmd: vec!["sway".to_owned()],
                env: vec!["A=b".to_owned(), "C=d".to_owned()],
            },
        ),
        (Request::CancelSession, greetd_ipc::Request::CancelSession),
    ];
    for (ours, theirs) in pairs {
        let our_bytes = wire_request(&ours);
        let mut their_bytes: Vec<u8> = Vec::new();
        theirs.write_to(&mut their_bytes).expect("reference encoding");
        assert_eq!(our_bytes, their_bytes);
    }
}

/// Frames written by the existing protocol library decode to the same
/// response values, so this library reads an unmodified daemon.
#[test]
fn interop_responses_from_reference_library() {
    let theirs = vec![
        greetd_ipc::Response::Success,
        greetd_ipc::Response::Error {
            error_type: greetd_ipc::ErrorType::AuthError,
            description: "no such user".to_owned(),
        },
        greetd_ipc::Response::AuthMessage {
            auth_message_type: greetd_ipc::AuthMessageType::Secret,
            auth_message: "Password: ".to_owned(),
        },
        greetd_ipc::Response::AuthMessage {
            auth_message_type: greetd_ipc::AuthMessageType::Info,
            auth_message: "tricky \"quotes\" and \\ slashes\n".to_owned(),
        },
    ];
    for resp in theirs {
        let mut bytes: Vec<u8> = Vec::new();
        resp.write_to(&mut bytes).expect("reference encoding");
        let ours = decode_response_wire(&bytes).expect("frame from the reference library");
        match (resp, ours) {
            (greetd_ipc::Response::Success, Response::Success) => {}
            (
                greetd_ipc::Response::Error { error_type, description },
                Response::Error { error_type: t, description: d },
            ) => {
                match (error_type, t) {
                    (greetd_ipc::ErrorType::AuthError, ErrorType::AuthError) => {}
                    (greetd_ipc::ErrorType::Error, ErrorType::Error) => {}
                    _ => panic!("error kind changed in decoding"),
                }
                assert_eq!(description, d);
            }
            (
                greetd_ipc::Response::AuthMessage { auth_message_type, auth_message },
                Response::AuthMessage { auth_message_type: t, auth_message: m },
            ) => {
                match (auth_message_type, t) {
                    (greetd_ipc::AuthMessageType::Visible, AuthMessageType::Visible) => {}
                    (greetd_ipc::AuthMessageType::Secret, AuthMessageType::Secret) => {}
                    (greetd_ipc::AuthMessageType::Info, AuthMessageType::Info) => {}
                    (greetd_ipc::AuthMessageType::Error, AuthMessageType::Error) => {}
                    _ => panic!("message kind changed in decoding"),
                }
                assert_eq!(auth_message, m);
            }
            _ => panic!("response changed variant in decoding"),
        }
    }
}

/// Our response frames read back correctly through the reference library.
#[test]
fn interop_our_responses_read_by_reference_library() {
    let bytes = wire_response(&Response::AuthMessage {
        auth_message_type: AuthMessageType::Visible,
        auth_message: "OTP: ".to_owned(),
    });
    let mut cursor = &bytes[..];
    let theirs = greetd_ipc::Response::read_from(&mut cursor).expect("our frame is well-formed");
    match theirs {
        greetd_ipc::Response::AuthMessage { auth_message_type, auth_message } => {
            assert!(matches!(auth_message_type, greetd_ipc::AuthMessageType::Visible));
            assert_eq!(auth_message, "OTP: ");
        }
        _ => panic!("our frame read back as a different variant"),
    }
}

#[test]
fn decode_rejects_truncated_buffer() {
    assert_eq!(decode_response_wire(&vec![]).unwrap_err(), DecodeError::Truncated);
    assert_eq!(decode_response_wire(&vec![1, 2, 3]).unwrap_err(), DecodeError::Truncated);
}

#[test]
fn decode_rejects_wrong_length_field() {
    let mut bytes = wire_response(&Response::Success);
    bytes[0] = bytes[0].wrapping_add(1);
    assert_eq!(decode_response_wire(&bytes).unwrap_err(), DecodeError::LengthMismatch);
}

#[test]
fn decode_rejects_invalid_utf8_payload() {
    let payload = vec![0xffu8, 0xfe, 0xfd];
    let mut bytes = (payload.len() as u32).to_le_bytes().to_vec();
    bytes.extend_from_slice(&payload);
    assert_eq!(decode_response_wire(&bytes).unwrap_err(), DecodeError::InvalidUtf8);
}

#[test]
fn decode_rejects_malformed_payload() {
    let payload = b"{\"type\":\"no_such_message\"}";
    let mut bytes = (payload.len() as u32).to_le_bytes().to_vec();
    bytes.extend_from_slice(payload);
    assert_eq!(decode_response_wire(&bytes).unwrap_err(), DecodeError::MalformedPayload);
    assert_eq!(decode_request_wire(&bytes).unwrap_err(), DecodeError::MalformedPayload);
}

/// A numeric escape in the ASCII range is read back, as the reference
/// library writes control characters that way.
#[test]
fn decode_accepts_numeric_escapes() {
    let payload = b"{\"type\":\"create_session\",\"username\":\"a\\u001fb\"}";
    let mut bytes = (payload.len() as u32).to_le_bytes().to_vec();
    bytes.extend_from_slice(payload);
    match decode_request_wire(&bytes).expect("numeric escape accepted") {
        Request::CreateSession { username } => assert_eq!(username, "a\u{1f}b"),
        _ => panic!("wrong variant"),
    }
}
