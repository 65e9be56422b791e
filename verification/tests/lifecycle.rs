//! The session lifecycle against the in-memory transport.

use greetd_client::client::{AnyClient, Client};
use greetd_client::mock::MockTransport;
use greetd_client::proto::{AuthMessageType, ErrorType, Request, Response};
use greetd_client::session_builder::{AnsweredQuestion, Outcome, SessionBuilder};
use greetd_client::sessions::{Session, SessionType};
use greetd_client::state::Empty;
use greetd_client::transport::Transport;

fn fresh_client() -> Client<Empty, MockTransport> {
    Client::<Empty, MockTransport>::new().expect("the mock always opens")
}

fn test_session() -> Session {
    Session {
        slug: "sway".to_owned(),
        name: "Sway".to_owned(),
        command: vec!["sway".to_owned()],
        session_type: SessionType::Wayland,
        desktop_names: vec!["Sway".to_owned()],
    }
}

/// A username that skips password prompting authenticates in one step.
#[test]
fn nopass_user_creates_session_immediately() {
    let client = fresh_client();
    let any = client.create_session("nopass-alice".to_owned()).expect("mock never fails");
    assert!(matches!(any, AnyClient::SessionCreated(_)));
}

/// An ordinary username gets one masked password prompt, and any non-empty
/// answer completes authentication.
#[test]
fn plain_user_gets_secret_prompt_then_succeeds() {
    let client = fresh_client();
    let any = client.create_session("alice".to_owned()).expect("mock never fails");
    let need = match any {
        AnyClient::NeedAuthResponse(c) => c,
        _ => panic!("expected an authentication prompt"),
    };
    assert!(matches!(need.state.auth_message_type, AuthMessageType::Secret));
    assert_eq!(need.state.auth_message, "Password: ");
    let any = need
        .post_auth_message_response(Some("hunter2".to_owned()))
        .expect("mock never fails");
    assert!(matches!(any, AnyClient::SessionCreated(_)));
}

/// A one-time-code username gets two prompts in order: masked, then visible.
#[test]
fn otp_user_gets_two_prompts_in_order() {
    let client = fresh_client();
    let any = client.create_session("otp-bob".to_owned()).expect("mock never fails");
    let need = match any {
        AnyClient::NeedAuthResponse(c) => c,
        _ => panic!("expected the password prompt"),
    };
    assert!(matches!(need.state.auth_message_type, AuthMessageType::Secret));
    assert_eq!(need.state.auth_message, "Password: ");
    let any = need.post_auth_message_response(Some("pw".to_owned())).expect("mock never fails");
    let need = match any {
        AnyClient::NeedAuthResponse(c) => c,
        _ => panic!("expected the one-time-code prompt"),
    };
    assert!(matches!(need.state.auth_message_type, AuthMessageType::Visible));
    assert_eq!(need.state.auth_message, "OTP: ");
    let any = need.post_auth_message_response(Some("123456".to_owned())).expect("mock never fails");
    assert!(matches!(any, AnyClient::SessionCreated(_)));
}

/// From the error state, exactly one cancellation request goes out before
/// the state returns to empty.
#[test]
fn error_state_cancels_exactly_once() {
    let transport =
        MockTransport::refusing(ErrorType::AuthError, "authentication refused".to_owned());
    let client = Client { state: Empty, transport };
    let any = client.create_session("carol".to_owned()).expect("mock never fails");
    let err_client = match any {
        AnyClient::ErrorEncountered(c) => c,
        _ => panic!("expected the error state"),
    };
    assert!(matches!(err_client.state.error_type, ErrorType::AuthError));
    assert_eq!(err_client.state.description, "authentication refused");
    let any = err_client.cancel_session().expect("mock never fails");
    let empty_client = match any {
        AnyClient::Empty(c) => c,
        _ => panic!("expected the empty state after cancellation"),
    };
    let requests = empty_client.transport.requests();
    assert_eq!(requests.len(), 2);
    assert!(matches!(requests[0], Request::CreateSession { .. }));
    assert!(matches!(requests[1], Request::CancelSession));
    let cancels = requests.iter().filter(|r| matches!(r, Request::CancelSession)).count();
    assert_eq!(cancels, 1);
}

/// Starting the session sends the command and environment and is terminal.
#[test]
fn start_session_hands_off() {
    let client = fresh_client();
    let any = client.create_session("nopass-dave".to_owned()).expect("mock never fails");
    let created = match any {
        AnyClient::SessionCreated(c) => c,
        _ => panic!("expected the created state"),
    };
    let any = created
        .start_session(vec!["sway".to_owned()], vec!["A=b".to_owned()])
        .expect("mock never fails");
    let started = match any {
        AnyClient::SessionStarted(c) => c,
        _ => panic!("expected the started state"),
    };
    let requests = started.transport.requests();
    assert_eq!(requests.len(), 2);
    match &requests[1] {
        Request::StartSession { cmd, env } => {
            assert_eq!(cmd, &vec!["sway".to_owned()]);
            assert_eq!(env, &vec!["A=b".to_owned()]);
        }
        _ => panic!("the second request must start the session"),
    }
}

/// The mock answers an out-of-order start request with an error response
/// instead of starting anything.
#[test]
fn mock_rejects_start_with_pending_prompts() {
    let mut mock = MockTransport::new().expect("the mock always opens");
    let first = mock
        .send_request(Request::CreateSession { username: "otp-eve".to_owned() })
        .expect("mock never fails");
    assert!(matches!(first, Response::AuthMessage { .. }));
    let reply = mock
        .send_request(Request::StartSession { cmd: vec![], env: vec![] })
        .expect("mock never fails");
    match reply {
        Response::Error { error_type, description } => {
            assert!(matches!(error_type, ErrorType::Error));
            assert_eq!(description, "session has pending messages");
        }
        _ => panic!("an out-of-order start must be answered with an error"),
    }
}

/// The mock pops one prompt per answer and then reports success.
#[test]
fn mock_pops_one_prompt_per_answer() {
    let mut mock = MockTransport::new().expect("the mock always opens");
    let first = mock
        .send_request(Request::CreateSession { username: "otp-frank".to_owned() })
        .expect("mock never fails");
    match first {
        Response::AuthMessage { auth_message_type, auth_message } => {
            assert!(matches!(auth_message_type, AuthMessageType::Secret));
            assert_eq!(auth_message, "Password: ");
        }
        _ => panic!("expected the password prompt"),
    }
    let second = mock
        .send_request(Request::PostAuthMessageResponse { response: Some("pw".to_owned()) })
        .expect("mock never fails");
    match second {
        Response::AuthMessage { auth_message_type, auth_message } => {
            assert!(matches!(auth_message_type, AuthMessageType::Visible));
            assert_eq!(auth_message, "OTP: ");
        }
        _ => panic!("expected the one-time-code prompt"),
    }
    let third = mock
        .send_request(Request::PostAuthMessageResponse { response: Some("42".to_owned()) })
        .expect("mock never fails");
    assert!(matches!(third, Response::Success));
}

/// One whole login through the builder: username, password, one-time code,
/// then hand-off of the selected session.
#[test]
fn builder_full_login_hands_off() {
    let mut builder = SessionBuilder::<MockTransport>::new().expect("the mock always opens");
    builder.select_session(Some(test_session()));
    let prompt = builder.current_prompt().expect("the username is asked first");
    assert_eq!(prompt.label, "Username");
    assert!(!prompt.is_secret);
    let o = builder.submit(Some("otp-bob".to_owned()));
    assert!(matches!(o, Outcome::AwaitingInput));
    let prompt = builder.current_prompt().expect("the password is asked next");
    assert_eq!(prompt.label, "Password: ");
    assert!(prompt.is_secret);
    let o = builder.submit(Some("pw".to_owned()));
    assert!(matches!(o, Outcome::AwaitingInput));
    let prompt = builder.current_prompt().expect("the one-time code is asked next");
    assert_eq!(prompt.label, "OTP: ");
    assert!(!prompt.is_secret);
    let o = builder.submit(Some("123456".to_owned()));
    assert!(matches!(o, Outcome::HandedOff));
}

/// The question log mirrors the accepted submissions in order: the username
/// as a visible answer, then the two authentication answers, the masked one
/// first.
#[test]
fn builder_question_log_in_submission_order() {
    let mut builder = SessionBuilder::<MockTransport>::new().expect("the mock always opens");
    builder.submit(Some("otp-bob".to_owned()));
    builder.submit(Some("pw".to_owned()));
    builder.submit(Some("123456".to_owned()));
    let log = builder.answered();
    assert_eq!(log.len(), 3);
    match &log[0] {
        AnsweredQuestion::Visible(v) => assert_eq!(v, "otp-bob"),
        _ => panic!("the username is recorded as a visible answer"),
    }
    match &log[1] {
        AnsweredQuestion::Secret(v) => assert_eq!(v, "pw"),
        _ => panic!("the password is recorded as a secret answer"),
    }
    match &log[2] {
        AnsweredQuestion::Visible(v) => assert_eq!(v, "123456"),
        _ => panic!("the one-time code is recorded as a visible answer"),
    }
}

/// Submitting with no session selected reports the missing selection and
/// keeps the authenticated state: selecting later needs no re-authentication.
#[test]
fn builder_needs_selection_is_idempotent() {
    let mut builder = SessionBuilder::<MockTransport>::new().expect("the mock always opens");
    let o = builder.submit(Some("nopass-alice".to_owned()));
    assert!(matches!(o, Outcome::NeedsSessionSelection));
    let o = builder.submit(None);
    assert!(matches!(o, Outcome::NeedsSessionSelection));
    let o = builder.submit(None);
    assert!(matches!(o, Outcome::NeedsSessionSelection));
    builder.select_session(Some(test_session()));
    let o = builder.submit(None);
    assert!(matches!(o, Outcome::HandedOff));
}

/// A refused login surfaces the daemon's description once and clears the
/// question log; the spent refusal lets the user retry on the same
/// connection.
#[test]
fn builder_surfaces_error_and_clears_log() {
    let transport =
        MockTransport::refusing(ErrorType::AuthError, "authentication refused".to_owned());
    let mut builder = SessionBuilder::with_transport(transport);
    let o = builder.submit(Some("carol".to_owned()));
    match o {
        Outcome::Failed(message) => assert_eq!(message, "authentication refused"),
        _ => panic!("a refused login fails the submission"),
    }
    assert_eq!(builder.answered().len(), 0);
    assert!(builder.current_prompt().expect("back at the username").label == "Username");
    let o = builder.submit(Some("carol".to_owned()));
    assert!(matches!(o, Outcome::AwaitingInput));
    let prompt = builder.current_prompt().expect("the retry is served normally");
    assert_eq!(prompt.label, "Password: ");
}

/// A username that happens to contain the word "fail" is served like any
/// other: no marker is reserved in the username space.
#[test]
fn username_containing_fail_is_served_normally() {
    let client = fresh_client();
    let any = client.create_session("failsafe-frank".to_owned()).expect("mock never fails");
    let need = match any {
        AnyClient::NeedAuthResponse(c) => c,
        _ => panic!("expected the ordinary password prompt"),
    };
    assert!(matches!(need.state.auth_message_type, AuthMessageType::Secret));
    assert_eq!(need.state.auth_message, "Password: ");
    let any = need.post_auth_message_response(Some("pw".to_owned())).expect("mock never fails");
    assert!(matches!(any, AnyClient::SessionCreated(_)));
}

/// After hand-off the builder reports hand-off again without sending more.
#[test]
fn builder_hand_off_is_terminal() {
    let mut builder = SessionBuilder::<MockTransport>::new().expect("the mock always opens");
    builder.select_session(Some(test_session()));
    let o = builder.submit(Some("nopass-alice".to_owned()));
    assert!(matches!(o, Outcome::HandedOff));
    let o = builder.submit(None);
    assert!(matches!(o, Outcome::HandedOff));
}

/// An answer to a visible prompt is recorded visibly.
#[test]
fn builder_records_visible_answers() {
    let mut builder = SessionBuilder::<MockTransport>::new().expect("the mock always opens");
    builder.submit(Some("otp-nopass-gerd".to_owned()));
    let prompt = builder.current_prompt().expect("the one-time code is asked");
    assert_eq!(prompt.label, "OTP: ");
    assert!(!prompt.is_secret);
    builder.submit(Some("000000".to_owned()));
    let log = builder.answered();
    assert_eq!(log.len(), 2);
    assert!(matches!(&log[1], AnsweredQuestion::Visible(v) if v == "000000"));
}
