//! The typed session lifecycle, built on top of a transport.
//!
//! A [`Client`] pairs one state value with the transport it owns
//! exclusively: the two move together as a unit, and every transition
//! consumes the old client and returns a new one inside [`AnyClient`], so a
//! consumed state value cannot be reused and no two states ever observe the
//! same live connection. Every transition's contract says that the
//! connection identity is preserved and that exactly the one corresponding
//! request was sent; a transport failure instead ends the attempt, and the
//! caller must start over from a fresh connection.

use vstd::prelude::*;

use crate::proto::{AuthMessageType, ErrorType, Request, RequestView, Response, ResponseView};
use crate::state::{Empty, ErrorEncountered, NeedAuthResponse, SessionCreated, SessionStarted};
use crate::transport::{Transport, TransportError};

verus! {

/// A session-lifecycle client in one particular state, owning its
/// connection.
pub struct Client<State, T: Transport> {
    pub state: State,
    pub transport: T,
}

/// A client in whichever state a transition led to.
pub enum AnyClient<T: Transport> {
    Empty(Client<Empty, T>),
    NeedAuthResponse(Client<NeedAuthResponse, T>),
    SessionCreated(Client<SessionCreated, T>),
    SessionStarted(Client<SessionStarted, T>),
    ErrorEncountered(Client<ErrorEncountered, T>),
}

/// Mathematical model of a client's state.
pub enum StateView {
    Empty,
    NeedAuthResponse { auth_message_type: AuthMessageType, auth_message: Seq<char> },
    SessionCreated,
    SessionStarted,
    ErrorEncountered { error_type: ErrorType, description: Seq<char> },
}

/// The state that follows a response: success advances to the given state,
/// an authentication message awaits its answer (superseding any prior
/// prompt), and an error is carried into the error state.
pub open spec fn state_after(resp: ResponseView, on_success: StateView) -> StateView {
    match resp {
        ResponseView::Success => on_success,
        ResponseView::AuthMessage { auth_message_type, auth_message } => {
            StateView::NeedAuthResponse { auth_message_type, auth_message }
        },
        ResponseView::Error { error_type, description } => {
            StateView::ErrorEncountered { error_type, description }
        },
    }
}

/// Which state a success response advances to; the other responses choose
/// the next state themselves.
enum SuccessTarget {
    Empty,
    SessionCreated,
    SessionStarted,
}

/// Mathematical model of a success target.
spec fn target_view(t: SuccessTarget) -> StateView {
    match t {
        SuccessTarget::Empty => StateView::Empty,
        SuccessTarget::SessionCreated => StateView::SessionCreated,
        SuccessTarget::SessionStarted => StateView::SessionStarted,
    }
}

/// Packs a response and the transport it came over into the client the
/// response leads to: success advances to the given target, an
/// authentication message awaits its answer, an error is carried into the
/// error state.
fn advance<T: Transport>(transport: T, response: Response, target: SuccessTarget) -> (c: AnyClient<
    T,
>)
    ensures
        c.transport_of() == transport,
        c.state_view() == state_after(response@, target_view(target)),
{
    match response {
        Response::Success => match target {
            SuccessTarget::Empty => AnyClient::Empty(Client { state: Empty, transport }),
            SuccessTarget::SessionCreated => AnyClient::SessionCreated(
                Client { state: SessionCreated, transport },
            ),
            SuccessTarget::SessionStarted => AnyClient::SessionStarted(
                Client { state: SessionStarted, transport },
            ),
        },
        Response::AuthMessage { auth_message_type, auth_message } => AnyClient::NeedAuthResponse(
            Client { state: NeedAuthResponse { auth_message_type, auth_message }, transport },
        ),
        Response::Error { error_type, description } => AnyClient::ErrorEncountered(
            Client { state: ErrorEncountered { error_type, description }, transport },
        ),
    }
}

impl<State, T: Transport> Client<State, T> {
    /// The identity of the connection this client owns.
    pub open spec fn transport_id(&self) -> int {
        self.transport.id()
    }

    /// The requests sent over this client's connection, oldest first.
    pub open spec fn sent(&self) -> Seq<RequestView> {
        self.transport.sent()
    }

    /// Abandons the session under negotiation, from any state: sends exactly
    /// one cancellation request over the same connection, and the state the
    /// response leads to — back to empty on the daemon's success answer —
    /// follows from the connection's step relation.
    pub fn cancel_session(self) -> (r: Result<AnyClient<T>, TransportError>)
        ensures
            r matches Ok(c) ==> {
                &&& c.transport_id() == self.transport_id()
                &&& c.sent() == self.sent().push(RequestView::CancelSession)
                &&& (exists|resp: ResponseView|
                    #[trigger] T::step(
                        self.transport,
                        RequestView::CancelSession,
                        resp,
                        c.transport_of(),
                    ) && c.state_view() == state_after(resp, StateView::Empty))
            },
    {
        let mut this = self;
        let ghost pre = this.transport;
        let response = match this.transport.send_request(Request::CancelSession) {
            Ok(resp) => resp,
            Err(e) => {
                return Err(e);
            },
        };
        let ghost rv = response@;
        let next = advance(this.transport, response, SuccessTarget::Empty);
        proof {
            assert(T::step(pre, RequestView::CancelSession, rv, next.transport_of())
                && next.state_view() == state_after(rv, StateView::Empty));
        }
        Ok(next)
    }
}

impl<T: Transport> AnyClient<T> {
    /// The transport this client owns, whichever state it is in.
    pub open spec fn transport_of(&self) -> T {
        match self {
            AnyClient::Empty(c) => c.transport,
            AnyClient::NeedAuthResponse(c) => c.transport,
            AnyClient::SessionCreated(c) => c.transport,
            AnyClient::SessionStarted(c) => c.transport,
            AnyClient::ErrorEncountered(c) => c.transport,
        }
    }

    /// Mathematical model of the state this client is in.
    pub open spec fn state_view(&self) -> StateView {
        match self {
            AnyClient::Empty(_) => StateView::Empty,
            AnyClient::NeedAuthResponse(c) => StateView::NeedAuthResponse {
                auth_message_type: c.state.auth_message_type,
                auth_message: c.state.auth_message@,
            },
            AnyClient::SessionCreated(_) => StateView::SessionCreated,
            AnyClient::SessionStarted(_) => StateView::SessionStarted,
            AnyClient::ErrorEncountered(c) => StateView::ErrorEncountered {
                error_type: c.state.error_type,
                description: c.state.description@,
            },
        }
    }

    /// The identity of the connection this client owns.
    pub open spec fn transport_id(&self) -> int {
        match self {
            AnyClient::Empty(c) => c.transport_id(),
            AnyClient::NeedAuthResponse(c) => c.transport_id(),
            AnyClient::SessionCreated(c) => c.transport_id(),
            AnyClient::SessionStarted(c) => c.transport_id(),
            AnyClient::ErrorEncountered(c) => c.transport_id(),
        }
    }

    /// The requests sent over this client's connection, oldest first.
    pub open spec fn sent(&self) -> Seq<RequestView> {
        match self {
            AnyClient::Empty(c) => c.sent(),
            AnyClient::NeedAuthResponse(c) => c.sent(),
            AnyClient::SessionCreated(c) => c.sent(),
            AnyClient::SessionStarted(c) => c.sent(),
            AnyClient::ErrorEncountered(c) => c.sent(),
        }
    }
}

impl<T: Transport> Client<Empty, T> {
    /// Opens a fresh connection, in the empty state, with nothing sent yet.
    pub fn new() -> (r: Result<Self, TransportError>)
        ensures
            r matches Ok(c) ==> c.sent() == Seq::<RequestView>::empty() && c.transport.fresh(),
    {
        match T::new() {
            Ok(t) => Ok(Client { state: Empty, transport: t }),
            Err(e) => Err(e),
        }
    }

    /// Begins a login attempt for the named user: sends exactly the one
    /// creation request over the same connection, and the state the response
    /// leads to — the session created at once, an authentication message to
    /// answer, or the carried error — follows from the connection's step
    /// relation.
    pub fn create_session(self, username: String) -> (r: Result<AnyClient<T>, TransportError>)
        ensures
            r matches Ok(c) ==> {
                &&& c.transport_id() == self.transport_id()
                &&& c.sent() == self.sent().push(
                    RequestView::CreateSession { username: username@ },
                )
                &&& (exists|resp: ResponseView|
                    #[trigger] T::step(
                        self.transport,
                        RequestView::CreateSession { username: username@ },
                        resp,
                        c.transport_of(),
                    ) && c.state_view() == state_after(resp, StateView::SessionCreated))
            },
    {
        let mut this = self;
        let ghost pre = this.transport;
        let ghost req_view = RequestView::CreateSession { username: username@ };
        let response = match this.transport.send_request(
            Request::CreateSession { username },
        ) {
            Ok(resp) => resp,
            Err(e) => {
                return Err(e);
            },
        };
        let ghost rv = response@;
        let next = advance(this.transport, response, SuccessTarget::SessionCreated);
        proof {
            assert(T::step(pre, req_view, rv, next.transport_of()) && next.state_view()
                == state_after(rv, StateView::SessionCreated));
        }
        Ok(next)
    }
}

impl<T: Transport> Client<NeedAuthResponse, T> {
    /// Answers (or declines to answer) the pending authentication message:
    /// sends exactly the one answer request over the same connection, and
    /// the state the response leads to — authentication complete, a further
    /// message superseding this one, or the carried error — follows from the
    /// connection's step relation.
    pub fn post_auth_message_response(self, response: Option<String>) -> (r: Result<
        AnyClient<T>,
        TransportError,
    >)
        ensures
            r matches Ok(c) ==> {
                &&& c.transport_id() == self.transport_id()
                &&& c.sent() == self.sent().push(
                    RequestView::PostAuthMessageResponse { response: response.deep_view() },
                )
                &&& (exists|resp: ResponseView|
                    #[trigger] T::step(
                        self.transport,
                        RequestView::PostAuthMessageResponse { response: response.deep_view() },
                        resp,
                        c.transport_of(),
                    ) && c.state_view() == state_after(resp, StateView::SessionCreated))
            },
    {
        let mut this = self;
        let ghost pre = this.transport;
        let ghost req_view = RequestView::PostAuthMessageResponse {
            response: response.deep_view(),
        };
        let reply = match this.transport.send_request(
            Request::PostAuthMessageResponse { response },
        ) {
            Ok(resp) => resp,
            Err(e) => {
                return Err(e);
            },
        };
        let ghost rv = reply@;
        let next = advance(this.transport, reply, SuccessTarget::SessionCreated);
        proof {
            assert(T::step(pre, req_view, rv, next.transport_of()) && next.state_view()
                == state_after(rv, StateView::SessionCreated));
        }
        Ok(next)
    }
}

impl<T: Transport> Client<SessionCreated, T> {
    /// Hands the chosen command off as the user's session: sends exactly the
    /// one start request over the same connection, and the state the
    /// response leads to — the terminal started state on success, or the
    /// carried error — follows from the connection's step relation.
    pub fn start_session(self, cmd: Vec<String>, env: Vec<String>) -> (r: Result<
        AnyClient<T>,
        TransportError,
    >)
        ensures
            r matches Ok(c) ==> {
                &&& c.transport_id() == self.transport_id()
                &&& c.sent() == self.sent().push(
                    RequestView::StartSession { cmd: cmd.deep_view(), env: env.deep_view() },
                )
                &&& (exists|resp: ResponseView|
                    #[trigger] T::step(
                        self.transport,
                        RequestView::StartSession { cmd: cmd.deep_view(), env: env.deep_view() },
                        resp,
                        c.transport_of(),
                    ) && c.state_view() == state_after(resp, StateView::SessionStarted))
            },
    {
        let mut this = self;
        let ghost pre = this.transport;
        let ghost req_view = RequestView::StartSession {
            cmd: cmd.deep_view(),
            env: env.deep_view(),
        };
        let response = match this.transport.send_request(
            Request::StartSession { cmd, env },
        ) {
            Ok(resp) => resp,
            Err(e) => {
                return Err(e);
            },
        };
        let ghost rv = response@;
        let next = advance(this.transport, response, SuccessTarget::SessionStarted);
        proof {
            assert(T::step(pre, req_view, rv, next.transport_of()) && next.state_view()
                == state_after(rv, StateView::SessionStarted));
        }
        Ok(next)
    }
}

} // verus!
