//! The channel-backed transport, driven by scripted byte channels.

use greetd_client::client::{AnyClient, Client};
use greetd_client::frame::encode_response_wire;
use greetd_client::proto::{AuthMessageType, Response};
use greetd_client::state::Empty;
use greetd_client::transport::{Channel, ChannelTransport, TransportError, TransportErrorKind};

/// A channel that ignores what is written and hands back a fixed script of
/// response frames, one per exchange.
struct ScriptedChannel {
    replies: Vec<Vec<u8>>,
    next: usize,
}

impl Channel for ScriptedChannel {
    fn open() -> Result<Self, TransportError> {
        let script = vec![
            Response::AuthMessage {
                auth_message_type: AuthMessageType::Secret,
                auth_message: "Password: ".to_owned(),
            },
            Response::Success,
            Response::Success,
        ];
        let replies = script
            .iter()
            .map(|r| encode_response_wire(r).expect("fits the length field"))
            .collect();
        Ok(ScriptedChannel { replies, next: 0 })
    }

    fn exchange(&mut self, _frame: Vec<u8>) -> Result<Vec<u8>, TransportError> {
        let reply = self.replies.get(self.next).cloned().ok_or(TransportError {
            kind: TransportErrorKind::Connection,
            description: "script exhausted".to_owned(),
        })?;
        self.next += 1;
        Ok(reply)
    }
}

/// A channel whose replies are not well-formed frames.
struct GarbageChannel;

impl Channel for GarbageChannel {
    fn open() -> Result<Self, TransportError> {
        Ok(GarbageChannel)
    }

    fn exchange(&mut self, _frame: Vec<u8>) -> Result<Vec<u8>, TransportError> {
        Ok(vec![0xff, 0xff])
    }
}

/// A whole login over the channel-backed transport: the library frames the
/// requests, decodes the scripted replies, and walks the lifecycle.
#[test]
fn channel_transport_walks_the_lifecycle() {
    let client =
        Client::<Empty, ChannelTransport<ScriptedChannel>>::new().expect("the script opens");
    let any = client.create_session("alice".to_owned()).expect("scripted reply");
    let need = match any {
        AnyClient::NeedAuthResponse(c) => c,
        _ => panic!("the script answers with the password prompt"),
    };
    assert_eq!(need.state.auth_message, "Password: ");
    let any = need.post_auth_message_response(Some("pw".to_owned())).expect("scripted reply");
    let created = match any {
        AnyClient::SessionCreated(c) => c,
        _ => panic!("the script then answers with success"),
    };
    let any = created.start_session(vec!["sway".to_owned()], vec![]).expect("scripted reply");
    assert!(matches!(any, AnyClient::SessionStarted(_)));
}

/// A malformed reply frame is rejected by the library as a framing failure,
/// whatever the channel did.
#[test]
fn channel_transport_rejects_malformed_frames() {
    let client = Client::<Empty, ChannelTransport<GarbageChannel>>::new().expect("opens");
    let err = match client.create_session("alice".to_owned()) {
        Err(e) => e,
        Ok(_) => panic!("garbage is rejected"),
    };
    assert!(matches!(err.kind, TransportErrorKind::Framing));
}

/// A channel failure ends the attempt with the channel's own error.
#[test]
fn channel_transport_propagates_channel_errors() {
    let client =
        Client::<Empty, ChannelTransport<ScriptedChannel>>::new().expect("the script opens");
    let any = client.create_session("alice".to_owned()).expect("scripted reply");
    let need = match any {
        AnyClient::NeedAuthResponse(c) => c,
        _ => panic!("the script answers with the password prompt"),
    };
    let any = need.post_auth_message_response(Some("pw".to_owned())).expect("scripted reply");
    let created = match any {
        AnyClient::SessionCreated(c) => c,
        _ => panic!("the script then answers with success"),
    };
    let any = created.start_session(vec![], vec![]).expect("scripted reply");
    let started = match any {
        AnyClient::SessionStarted(c) => c,
        _ => panic!("the script then answers with success again"),
    };
    let err = match started.cancel_session() {
        Err(e) => e,
        Ok(_) => panic!("the script is exhausted"),
    };
    assert!(matches!(err.kind, TransportErrorKind::Connection));
    assert_eq!(err.description, "script exhausted");
}
