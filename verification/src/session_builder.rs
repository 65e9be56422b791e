//! The one-answer-per-step workflow over the session lifecycle, with a
//! replayable log of the questions already answered.
//!
//! The builder holds the lifecycle client, the ordered log of
//! prompts-and-answers the user has supplied so far (for re-display), and
//! the externally selected launchable session. Each submission feeds one
//! answer in and performs at most one round of requests before control
//! returns: after an answer completes authentication, the builder advances
//! to starting the selected session at once rather than waiting for another
//! submission; with no session selected it reports that and keeps the
//! already-authenticated state untouched, so selecting a session and
//! resubmitting needs no new authentication. A protocol error is recovered
//! by exactly one cancellation over the same connection, clearing the log
//! and surfacing the carried description once; a transport failure discards
//! the connection, and the next submission starts over on a fresh one.

use vstd::prelude::*;

use crate::client::{state_after, AnyClient, Client, StateView};
use crate::proto::{AuthMessageType, RequestView, ResponseView};
use crate::sessions::{Session, SessionView};
use crate::transport::{Transport, TransportError};

verus! {

/// One previously answered question, tagged by whether its answer may later
/// be shown in clear text.
#[derive(Debug)]
pub enum AnsweredQuestion {
    Visible(String),
    Secret(String),
}

/// Mathematical model of an [`AnsweredQuestion`].
pub enum AnsweredQuestionView {
    Visible(Seq<char>),
    Secret(Seq<char>),
}

impl View for AnsweredQuestion {
    type V = AnsweredQuestionView;

    open spec fn view(&self) -> AnsweredQuestionView {
        match self {
            AnsweredQuestion::Visible(s) => AnsweredQuestionView::Visible(s@),
            AnsweredQuestion::Secret(s) => AnsweredQuestionView::Secret(s@),
        }
    }
}

impl DeepView for AnsweredQuestion {
    type V = AnsweredQuestionView;

    open spec fn deep_view(&self) -> AnsweredQuestionView {
        self.view()
    }
}

/// What one submission led to.
#[derive(Debug)]
pub enum Outcome {
    /// More input is awaited; the current prompt says what for.
    AwaitingInput,
    /// Authentication is complete, but no launchable session is selected.
    NeedsSessionSelection,
    /// The daemon took the session over; the caller's involvement ends.
    HandedOff,
    /// The attempt failed; the message says why.
    Failed(String),
}

/// The question the caller should put to the user now.
#[derive(Debug)]
pub struct Prompt {
    pub label: String,
    pub is_secret: bool,
}

/// The log entries one answer contributes: the answer tagged by the
/// prompt's kind, or nothing when no answer was given or the message asked
/// no question.
pub open spec fn recorded_answer(kind: AuthMessageType, answer: Option<Seq<char>>) -> Seq<
    AnsweredQuestionView,
> {
    match answer {
        Some(a) => match kind {
            AuthMessageType::Secret => seq![AnsweredQuestionView::Secret(a)],
            AuthMessageType::Visible => seq![AnsweredQuestionView::Visible(a)],
            AuthMessageType::Info => Seq::empty(),
            AuthMessageType::Error => Seq::empty(),
        },
        None => Seq::empty(),
    }
}

/// The workflow state: the lifecycle client (absent after a transport
/// failure or before the first connection is re-established), the question
/// log, and the selected launchable session.
pub struct SessionBuilder<T: Transport> {
    client: Option<AnyClient<T>>,
    prev_answers: Vec<AnsweredQuestion>,
    session: Option<Session>,
}

impl<T: Transport> SessionBuilder<T> {
    /// Whether the builder holds a live connection.
    pub closed spec fn connected(&self) -> bool {
        self.client is Some
    }

    /// The state the held client is in; empty when disconnected.
    pub closed spec fn state_view(&self) -> StateView {
        match self.client {
            Some(c) => c.state_view(),
            None => StateView::Empty,
        }
    }

    /// The identity of the held connection; meaningful only when connected.
    pub closed spec fn id(&self) -> int {
        match self.client {
            Some(c) => c.transport_id(),
            None => 0,
        }
    }

    /// The requests sent over the held connection; empty when disconnected.
    pub closed spec fn sent(&self) -> Seq<RequestView> {
        match self.client {
            Some(c) => c.sent(),
            None => Seq::empty(),
        }
    }

    /// The question log, oldest first.
    pub closed spec fn questions(&self) -> Seq<AnsweredQuestionView> {
        self.prev_answers.deep_view()
    }

    /// The selected launchable session, if one is selected.
    pub closed spec fn selected(&self) -> Option<SessionView> {
        match self.session {
            Some(s) => Some(s@),
            None => None,
        }
    }

    /// Opens a fresh connection with an empty question log and no session
    /// selected.
    pub fn new() -> (r: Result<Self, TransportError>)
        ensures
            r matches Ok(b) ==> {
                &&& b.connected()
                &&& b.state_view() is Empty
                &&& b.sent() == Seq::<RequestView>::empty()
                &&& b.questions() == Seq::<AnsweredQuestionView>::empty()
                &&& b.selected() is None
            },
    {
        match Client::<crate::state::Empty, T>::new() {
            Ok(c) => {
                let b = SessionBuilder {
                    client: Some(AnyClient::Empty(c)),
                    prev_answers: Vec::new(),
                    session: None,
                };
                proof {
                    assert(b.questions() =~= Seq::<AnsweredQuestionView>::empty());
                }
                Ok(b)
            },
            Err(e) => Err(e),
        }
    }

    /// Starts the workflow over an already opened connection, with an empty
    /// question log and no session selected.
    pub fn with_transport(transport: T) -> (r: Self)
        ensures
            r.connected(),
            r.state_view() is Empty,
            r.id() == transport.id(),
            r.sent() == transport.sent(),
            r.questions() == Seq::<AnsweredQuestionView>::empty(),
            r.selected() is None,
    {
        let r = SessionBuilder {
            client: Some(AnyClient::Empty(Client { state: crate::state::Empty, transport })),
            prev_answers: Vec::new(),
            session: None,
        };
        proof {
            assert(r.questions() =~= Seq::<AnsweredQuestionView>::empty());
        }
        r
    }

    /// Selects (or clears) the launchable session to start once
    /// authentication completes; nothing else changes and nothing is sent.
    pub fn select_session(&mut self, session: Option<Session>)
        ensures
            final(self).selected() == (match session {
                Some(s) => Some(s@),
                None => None::<SessionView>,
            }),
            final(self).connected() == old(self).connected(),
            final(self).state_view() == old(self).state_view(),
            final(self).id() == old(self).id(),
            final(self).sent() == old(self).sent(),
            final(self).questions() == old(self).questions(),
    {
        self.session = session;
    }

    /// The question to put to the user now: the username in the empty state,
    /// the pending authentication message when it asks for an answer, and
    /// nothing otherwise.
    pub fn current_prompt(&self) -> (r: Option<Prompt>)
        ensures
            match r {
                Some(p) => self.connected() && match self.state_view() {
                    StateView::Empty => p.label@ == "Username"@ && !p.is_secret,
                    StateView::NeedAuthResponse { auth_message_type, auth_message } => {
                        &&& p.label@ == auth_message
                        &&& (auth_message_type == AuthMessageType::Secret
                            || auth_message_type == AuthMessageType::Visible)
                        &&& p.is_secret == (auth_message_type == AuthMessageType::Secret)
                    },
                    _ => false,
                },
                None => !self.connected() || match self.state_view() {
                    StateView::Empty => false,
                    StateView::NeedAuthResponse { auth_message_type, .. } => {
                        auth_message_type == AuthMessageType::Info || auth_message_type
                            == AuthMessageType::Error
                    },
                    _ => true,
                },
            },
    {
        match &self.client {
            None => None,
            Some(AnyClient::Empty(_)) => Some(
                Prompt { label: "Username".to_owned(), is_secret: false },
            ),
            Some(AnyClient::NeedAuthResponse(c)) => match c.state.auth_message_type {
                AuthMessageType::Secret => Some(
                    Prompt { label: c.state.auth_message.clone(), is_secret: true },
                ),
                AuthMessageType::Visible => Some(
                    Prompt { label: c.state.auth_message.clone(), is_secret: false },
                ),
                AuthMessageType::Info => None,
                AuthMessageType::Error => None,
            },
            Some(_) => None,
        }
    }

    /// The display-only message of the pending authentication message, when
    /// it asks no question.
    pub fn display_message(&self) -> (r: Option<String>)
        ensures
            match r {
                Some(m) => self.connected() && match self.state_view() {
                    StateView::NeedAuthResponse { auth_message_type, auth_message } => {
                        &&& m@ == auth_message
                        &&& (auth_message_type == AuthMessageType::Info || auth_message_type
                            == AuthMessageType::Error)
                    },
                    _ => false,
                },
                None => !self.connected() || match self.state_view() {
                    StateView::NeedAuthResponse { auth_message_type, .. } => {
                        auth_message_type == AuthMessageType::Secret || auth_message_type
                            == AuthMessageType::Visible
                    },
                    _ => true,
                },
            },
    {
        match &self.client {
            Some(AnyClient::NeedAuthResponse(c)) => match c.state.auth_message_type {
                AuthMessageType::Info => Some(c.state.auth_message.clone()),
                AuthMessageType::Error => Some(c.state.auth_message.clone()),
                _ => None,
            },
            _ => None,
        }
    }

    /// The questions answered so far, oldest first, for re-display.
    pub fn answered(&self) -> (r: &Vec<AnsweredQuestion>)
        ensures
            r.deep_view() == self.questions(),
    {
        &self.prev_answers
    }

    /// Recovers from a carried protocol error: clears the question log,
    /// sends exactly one cancellation over the same connection, and
    /// surfaces the carried description once.
    fn recover(&mut self, c: Client<crate::state::ErrorEncountered, T>) -> (r: Outcome)
        requires
            old(self).client is None,
        ensures
            final(self).questions() == Seq::<AnsweredQuestionView>::empty(),
            final(self).selected() == old(self).selected(),
            r matches Outcome::Failed(m) && m@ == c.state.description@,
            final(self).connected() ==> {
                &&& final(self).id() == c.transport_id()
                &&& final(self).sent() == c.sent().push(RequestView::CancelSession)
                &&& (exists|resp: ResponseView| final(self).state_view() == #[trigger] state_after(
                    resp,
                    StateView::Empty,
                ))
            },
    {
        let msg = c.state.description.clone();
        self.prev_answers = Vec::new();
        proof {
            assert(self.prev_answers.deep_view() =~= Seq::<AnsweredQuestionView>::empty());
        }
        match c.cancel_session() {
            Ok(next) => {
                self.client = Some(next);
            },
            Err(_) => {
                self.client = None;
            },
        }
        Outcome::Failed(msg)
    }

    /// Follows a transition out of the authentication phase: stores the new
    /// state, advances to starting the session when authentication is
    /// complete, and recovers from errors.
    fn follow(&mut self, r: Result<AnyClient<T>, TransportError>) -> (o: Outcome)
        requires
            old(self).client is None,
        ensures
            final(self).selected() == old(self).selected(),
            final(self).connected() ==> r is Ok,
            r matches Ok(c) ==> (final(self).connected() ==> final(self).id() == c.transport_id()),
            r is Err ==> !final(self).connected() && final(self).questions() == Seq::<
                AnsweredQuestionView,
            >::empty() && o is Failed,
            r matches Ok(c) ==> ((!(c.state_view() is SessionCreated) && !(c.state_view()
                is ErrorEncountered)) ==> {
                &&& final(self).connected()
                &&& final(self).sent() == c.sent()
                &&& final(self).state_view() == c.state_view()
                &&& final(self).questions() == old(self).questions()
            }),
            r matches Ok(c) ==> (c.state_view() is ErrorEncountered ==> {
                &&& final(self).questions() == Seq::<AnsweredQuestionView>::empty()
                &&& o is Failed
                &&& (final(self).connected() ==> final(self).sent() == c.sent().push(
                    RequestView::CancelSession,
                ))
            }),
            r matches Ok(c) ==> ((c.state_view() is SessionCreated && old(self).selected()
                is None) ==> {
                &&& final(self).connected()
                &&& final(self).sent() == c.sent()
                &&& final(self).state_view() == c.state_view()
                &&& final(self).questions() == old(self).questions()
                &&& o == Outcome::NeedsSessionSelection
            }),
            (r is Ok && !(o is Failed)) ==> final(self).questions() == old(self).questions(),
            r matches Ok(c) ==> (final(self).connected() ==> c.sent().is_prefix_of(
                final(self).sent(),
            )),
            (o is HandedOff && final(self).connected()) ==> final(self).state_view()
                is SessionStarted,
            (o == Outcome::NeedsSessionSelection && final(self).connected())
                ==> final(self).state_view() is SessionCreated,
    {
        match r {
            Err(e) => {
                self.prev_answers = Vec::new();
                self.client = None;
                proof {
                    assert(self.prev_answers.deep_view() =~= Seq::<AnsweredQuestionView>::empty());
                }
                Outcome::Failed(e.description)
            },
            Ok(AnyClient::Empty(c)) => {
                self.client = Some(AnyClient::Empty(c));
                Outcome::AwaitingInput
            },
            Ok(AnyClient::NeedAuthResponse(c)) => {
                self.client = Some(AnyClient::NeedAuthResponse(c));
                Outcome::AwaitingInput
            },
            Ok(AnyClient::SessionCreated(c)) => self.start_selected(c),
            Ok(AnyClient::SessionStarted(c)) => {
                self.client = Some(AnyClient::SessionStarted(c));
                Outcome::HandedOff
            },
            Ok(AnyClient::ErrorEncountered(c)) => self.recover(c),
        }
    }

    /// Starts the selected session from the authenticated state, or reports
    /// that none is selected, keeping the authenticated state untouched.
    fn start_selected(&mut self, c: Client<crate::state::SessionCreated, T>) -> (o: Outcome)
        requires
            old(self).client is None,
        ensures
            final(self).selected() == old(self).selected(),
            old(self).selected() is None ==> {
                &&& final(self).connected()
                &&& final(self).state_view() is SessionCreated
                &&& final(self).id() == c.transport_id()
                &&& final(self).sent() == c.sent()
                &&& final(self).questions() == old(self).questions()
                &&& o == Outcome::NeedsSessionSelection
            },
            final(self).connected() ==> final(self).id() == c.transport_id(),
            old(self).selected() matches Some(sess) ==> (final(self).connected() ==> {
                final(self).sent() == c.sent().push(
                    RequestView::StartSession {
                        cmd: sess.command,
                        env: crate::sessions::environment_of(sess),
                    },
                ) || final(self).sent() == c.sent().push(
                    RequestView::StartSession {
                        cmd: sess.command,
                        env: crate::sessions::environment_of(sess),
                    },
                ).push(RequestView::CancelSession)
            }),
            (old(self).selected() is Some && o is HandedOff && final(self).connected())
                ==> final(self).state_view() is SessionStarted,
            !(o is Failed) ==> final(self).questions() == old(self).questions(),
            final(self).connected() ==> c.sent().is_prefix_of(final(self).sent()),
            (o is HandedOff && final(self).connected()) ==> final(self).state_view()
                is SessionStarted,
            (o == Outcome::NeedsSessionSelection && final(self).connected())
                ==> final(self).state_view() is SessionCreated,
    {
        broadcast use vstd::std_specs::vec::vec_clone_deep_view_proof;

        match &self.session {
            None => {
                self.client = Some(AnyClient::SessionCreated(c));
                Outcome::NeedsSessionSelection
            },
            Some(sess) => {
                let cmd = sess.command.clone();
                let env = sess.to_environment();
                match c.start_session(cmd, env) {
                    Err(e) => {
                        self.prev_answers = Vec::new();
                        self.client = None;
                        proof {
                            assert(self.prev_answers.deep_view() =~= Seq::<
                                AnsweredQuestionView,
                            >::empty());
                        }
                        Outcome::Failed(e.description)
                    },
                    Ok(AnyClient::SessionStarted(c2)) => {
                        self.client = Some(AnyClient::SessionStarted(c2));
                        Outcome::HandedOff
                    },
                    Ok(AnyClient::ErrorEncountered(c2)) => self.recover(c2),
                    Ok(AnyClient::NeedAuthResponse(c2)) => {
                        self.client = Some(AnyClient::NeedAuthResponse(c2));
                        Outcome::Failed(
                            "unexpected authentication message after session start".to_owned(),
                        )
                    },
                    Ok(AnyClient::Empty(c2)) => {
                        self.client = Some(AnyClient::Empty(c2));
                        Outcome::AwaitingInput
                    },
                    Ok(AnyClient::SessionCreated(c2)) => {
                        self.client = Some(AnyClient::SessionCreated(c2));
                        Outcome::NeedsSessionSelection
                    },
                }
            },
        }
    }

    /// Feeds one answer into the workflow and performs at most one round of
    /// requests. In the empty state the answer is the username: the log is
    /// cleared to record it as the one visible answer, and a creation
    /// request is sent. At a pending authentication message the answer is
    /// recorded by the prompt's kind and posted; when that completes
    /// authentication and a session is selected, the builder advances to
    /// starting it at once. In the authenticated state with a selected
    /// session, exactly the one start request goes out, followed by a
    /// cancellation only if the daemon answered it with an error; with no
    /// session selected, nothing is sent and nothing changes. A carried
    /// error is recovered by exactly one cancellation, clearing the log and
    /// surfacing the carried description verbatim, once. After hand-off
    /// nothing more is sent. A hand-off outcome means the started state was
    /// reached; a missing-selection outcome means the authenticated state is
    /// held. Whenever the same connection is kept, its identity is
    /// preserved; only a reconnection after a failure replaces it, and the
    /// fresh connection's first request is again a creation request.
    pub fn submit(&mut self, answer: Option<String>) -> (o: Outcome)
        ensures
            final(self).selected() == old(self).selected(),
            (old(self).connected() && final(self).connected()) ==> final(self).id() == old(
                self,
            ).id(),
            (old(self).connected() && old(self).state_view() is Empty) ==> {
                &&& ((final(self).connected() && !(o is Failed)) ==> final(self).questions()
                    == seq![
                    AnsweredQuestionView::Visible(
                        match answer {
                            Some(a) => a@,
                            None => Seq::<char>::empty(),
                        },
                    ),
                ])
                &&& (final(self).connected() ==> old(self).sent().push(
                    RequestView::CreateSession {
                        username: match answer {
                            Some(a) => a@,
                            None => Seq::<char>::empty(),
                        },
                    },
                ).is_prefix_of(final(self).sent()))
            },
            (old(self).connected() && old(self).state_view() matches
                StateView::NeedAuthResponse { .. }) ==> (final(self).connected() ==> old(
                self,
            ).sent().push(
                RequestView::PostAuthMessageResponse { response: answer.deep_view() },
            ).is_prefix_of(final(self).sent())),
            old(self).state_view() matches StateView::NeedAuthResponse {
                auth_message_type,
                ..
            } ==> ((old(self).connected() && final(self).connected() && !(o is Failed))
                ==> final(self).questions() == old(self).questions() + recorded_answer(
                auth_message_type,
                answer.deep_view(),
            )),
            (old(self).connected() && old(self).state_view() is SessionCreated && old(
                self,
            ).selected() is None) ==> {
                &&& final(self).connected()
                &&& final(self).state_view() == old(self).state_view()
                &&& final(self).id() == old(self).id()
                &&& final(self).sent() == old(self).sent()
                &&& final(self).questions() == old(self).questions()
                &&& o == Outcome::NeedsSessionSelection
            },
            (old(self).connected() && old(self).state_view() is ErrorEncountered) ==> {
                &&& final(self).questions() == Seq::<AnsweredQuestionView>::empty()
                &&& o is Failed
                &&& (final(self).connected() ==> final(self).sent() == old(self).sent().push(
                    RequestView::CancelSession,
                ))
            },
            (old(self).connected() && old(self).state_view() is SessionStarted) ==> {
                &&& final(self).connected()
                &&& final(self).state_view() == old(self).state_view()
                &&& final(self).sent() == old(self).sent()
                &&& final(self).questions() == old(self).questions()
                &&& o == Outcome::HandedOff
            },
            old(self).selected() matches Some(sess) ==> ((old(self).connected()
                && old(self).state_view() is SessionCreated && final(self).connected())
                ==> (final(self).sent()
                == old(self).sent().push(
                RequestView::StartSession {
                    cmd: sess.command,
                    env: crate::sessions::environment_of(sess),
                },
            ) || final(self).sent() == old(self).sent().push(
                RequestView::StartSession {
                    cmd: sess.command,
                    env: crate::sessions::environment_of(sess),
                },
            ).push(RequestView::CancelSession))),
            old(self).state_view() matches StateView::ErrorEncountered { description, .. } ==> (
            old(self).connected() ==> (o matches Outcome::Failed(m) && m@ == description)),
            (o is HandedOff && final(self).connected()) ==> final(self).state_view()
                is SessionStarted,
            (o == Outcome::NeedsSessionSelection && final(self).connected())
                ==> final(self).state_view() is SessionCreated,
            !old(self).connected() ==> (final(self).connected() ==> {
                &&& seq![
                    RequestView::CreateSession {
                        username: match answer {
                            Some(a) => a@,
                            None => Seq::<char>::empty(),
                        },
                    },
                ].is_prefix_of(final(self).sent())
                &&& (!(o is Failed) ==> final(self).questions() == seq![
                    AnsweredQuestionView::Visible(
                        match answer {
                            Some(a) => a@,
                            None => Seq::<char>::empty(),
                        },
                    ),
                ])
            }),
    {
        let taken = self.client.take();
        match taken {
            None => {
                match Client::<crate::state::Empty, T>::new() {
                    Err(e) => {
                        self.prev_answers = Vec::new();
                        proof {
                            assert(self.prev_answers.deep_view() =~= Seq::<
                                AnsweredQuestionView,
                            >::empty());
                        }
                        Outcome::Failed(e.description)
                    },
                    Ok(c) => self.submit_username(c, answer),
                }
            },
            Some(AnyClient::Empty(c)) => self.submit_username(c, answer),
            Some(AnyClient::NeedAuthResponse(c)) => {
                let kind = c.state.auth_message_type;
                match &answer {
                    Some(a) => {
                        match kind {
                            AuthMessageType::Secret => {
                                self.prev_answers.push(AnsweredQuestion::Secret(a.clone()));
                            },
                            AuthMessageType::Visible => {
                                self.prev_answers.push(AnsweredQuestion::Visible(a.clone()));
                            },
                            AuthMessageType::Info => {},
                            AuthMessageType::Error => {},
                        }
                    },
                    None => {},
                }
                let r = c.post_auth_message_response(answer);
                self.follow(r)
            },
            Some(AnyClient::SessionCreated(c)) => self.start_selected(c),
            Some(AnyClient::SessionStarted(c)) => {
                self.client = Some(AnyClient::SessionStarted(c));
                Outcome::HandedOff
            },
            Some(AnyClient::ErrorEncountered(c)) => self.recover(c),
        }
    }

    /// Records the username as the one visible answer of a fresh log and
    /// begins the login attempt.
    fn submit_username(&mut self, c: Client<crate::state::Empty, T>, answer: Option<String>) -> (o:
        Outcome)
        requires
            old(self).client is None,
        ensures
            final(self).selected() == old(self).selected(),
            final(self).connected() ==> final(self).id() == c.transport_id(),
            (final(self).connected() && !(o is Failed)) ==> final(self).questions() == seq![
                AnsweredQuestionView::Visible(
                    match answer {
                        Some(a) => a@,
                        None => Seq::<char>::empty(),
                    },
                ),
            ],
            final(self).connected() ==> c.sent().push(
                RequestView::CreateSession {
                    username: match answer {
                        Some(a) => a@,
                        None => Seq::<char>::empty(),
                    },
                },
            ).is_prefix_of(final(self).sent()),
            (o is HandedOff && final(self).connected()) ==> final(self).state_view()
                is SessionStarted,
            (o == Outcome::NeedsSessionSelection && final(self).connected())
                ==> final(self).state_view() is SessionCreated,
    {
        let username = match answer {
            Some(a) => a,
            None => String::new(),
        };
        self.prev_answers = Vec::new();
        self.prev_answers.push(AnsweredQuestion::Visible(username.clone()));
        proof {
            assert(self.prev_answers.deep_view() =~= seq![
                AnsweredQuestionView::Visible(username@),
            ]);
        }
        let r = c.create_session(username);
        self.follow(r)
    }
}

} // verus!
