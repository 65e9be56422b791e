//! The messages of the session-negotiation wire protocol.
//!
//! A client sends [`Request`] values and receives [`Response`] values; the
//! protocol allows exactly one outstanding request per connection. The
//! mathematical models of the messages ([`RequestView`], [`ResponseView`])
//! carry character sequences in place of strings.

use vstd::prelude::*;

verus! {

/// Classification of an authentication message.
#[derive(Clone, Copy, Debug, PartialEq, Eq, Structural)]
pub enum AuthMessageType {
    /// A question whose answer may be shown while it is typed.
    Visible,
    /// A question whose answer must be masked while it is typed.
    Secret,
    /// An informational message; it asks no question.
    Info,
    /// An error message to display; it asks no question.
    Error,
}

/// Classification of an error response.
#[derive(Clone, Copy, Debug, PartialEq, Eq, Structural)]
pub enum ErrorType {
    /// A generic failure; the description says more.
    Error,
    /// A failure of authentication.
    AuthError,
}

/// A request from the client to the daemon.
#[derive(Debug)]
pub enum Request {
    /// Begin a login attempt for the named user.
    CreateSession { username: String },
    /// Answer (or decline to answer) the last authentication message.
    PostAuthMessageResponse { response: Option<String> },
    /// Launch the chosen command in the authenticated session.
    StartSession { cmd: Vec<String>, env: Vec<String> },
    /// Abandon the session under negotiation.
    CancelSession,
}

/// A response from the daemon to the client.
#[derive(Debug)]
pub enum Response {
    /// The request succeeded.
    Success,
    /// The request failed.
    Error { error_type: ErrorType, description: String },
    /// An authentication message must be answered to continue.
    AuthMessage { auth_message_type: AuthMessageType, auth_message: String },
}

/// Mathematical model of a [`Request`].
pub enum RequestView {
    CreateSession { username: Seq<char> },
    PostAuthMessageResponse { response: Option<Seq<char>> },
    StartSession { cmd: Seq<Seq<char>>, env: Seq<Seq<char>> },
    CancelSession,
}

/// Mathematical model of a [`Response`].
pub enum ResponseView {
    Success,
    Error { error_type: ErrorType, description: Seq<char> },
    AuthMessage { auth_message_type: AuthMessageType, auth_message: Seq<char> },
}

impl View for Request {
    type V = RequestView;

    open spec fn view(&self) -> RequestView {
        match self {
            Request::CreateSession { username } => RequestView::CreateSession {
                username: username@,
            },
            Request::PostAuthMessageResponse { response } => RequestView::PostAuthMessageResponse {
                response: response.deep_view(),
            },
            Request::StartSession { cmd, env } => RequestView::StartSession {
                cmd: cmd.deep_view(),
                env: env.deep_view(),
            },
            Request::CancelSession => RequestView::CancelSession,
        }
    }
}

impl DeepView for Request {
    type V = RequestView;

    open spec fn deep_view(&self) -> RequestView {
        self.view()
    }
}

impl View for Response {
    type V = ResponseView;

    open spec fn view(&self) -> ResponseView {
        match self {
            Response::Success => ResponseView::Success,
            Response::Error { error_type, description } => ResponseView::Error {
                error_type: *error_type,
                description: description@,
            },
            Response::AuthMessage { auth_message_type, auth_message } => ResponseView::AuthMessage {
                auth_message_type: *auth_message_type,
                auth_message: auth_message@,
            },
        }
    }
}

impl DeepView for Response {
    type V = ResponseView;

    open spec fn deep_view(&self) -> ResponseView {
        self.view()
    }
}

} // verus!
