//! An in-memory transport for testing, with no real channel behind it.
//!
//! On session creation it pre-computes a queue of expected prompts from the
//! submitted username: a username containing the marker `nopass` skips the
//! password prompt, and one containing `otp` adds a one-time-code prompt.
//! Each answer pops one prompt; once the queue is empty the next answer
//! succeeds. Starting the session succeeds only with an empty queue; out of
//! order it is answered with an error response, as the real daemon answers a
//! start request while messages are still pending. To exercise the error
//! path, [`MockTransport::refusing`] builds a mock that answers the next
//! session creation with an injected error response instead.

use vstd::prelude::*;

use crate::proto::{AuthMessageType, ErrorType, Request, RequestView, Response, ResponseView};
use crate::transport::{Transport, TransportError};

verus! {

/// Whether the marker occurs somewhere in the text.
pub open spec fn contains_marker(s: Seq<char>, m: Seq<char>) -> bool {
    exists|i: int| 0 <= i <= s.len() - m.len() && #[trigger] s.subrange(i, i + m.len() as int) == m
}

/// Whether the marker occurs somewhere in the text.
pub fn contains_marker_exec(s: &str, m: &str) -> (b: bool)
    ensures
        b == contains_marker(s@, m@),
{
    let sv = crate::json::str_chars(s);
    let mv = crate::json::str_chars(m);
    let n = sv.len();
    let k = mv.len();
    if k == 0 {
        proof {
            assert(s@.subrange(0, 0 + m@.len() as int) =~= m@);
        }
        return true;
    }
    if k > n {
        proof {
            assert(!contains_marker(s@, m@));
        }
        return false;
    }
    let mut i: usize = 0;
    while i <= n - k
        invariant
            1 <= k <= n,
            n == s@.len(),
            k == m@.len(),
            sv@ == s@,
            mv@ == m@,
            i <= n - k + 1,
            forall|ii: int| 0 <= ii < i ==> #[trigger] s@.subrange(ii, ii + k as int) != m@,
        decreases n - k - i + 1,
    {
        let mut j: usize = 0;
        let mut mismatch = false;
        while j < k && !mismatch
            invariant
                1 <= k <= n,
                n == s@.len(),
                k == m@.len(),
                sv@ == s@,
                mv@ == m@,
                i + k <= n,
                j <= k,
                !mismatch ==> forall|jj: int| 0 <= jj < j ==> s@[i + jj] == #[trigger] m@[jj],
                mismatch ==> s@.subrange(i as int, i as int + k as int) != m@,
            decreases k - j + (if mismatch { 0int } else { 1int }),
        {
            proof {
                assert(i + j < n);
            }
            if sv[i + j] != mv[j] {
                proof {
                    assert(s@.subrange(i as int, i as int + k as int)[j as int] == s@[i as int
                        + j as int]);
                }
                mismatch = true;
            } else {
                j += 1;
            }
        }
        if !mismatch {
            proof {
                assert(s@.subrange(i as int, i as int + k as int) =~= m@);
            }
            return true;
        }
        i += 1;
    }
    proof {
        assert(!contains_marker(s@, m@)) by {
            if contains_marker(s@, m@) {
                let w = choose|w: int|
                    0 <= w <= s@.len() - m@.len() && #[trigger] s@.subrange(w, w + m@.len() as int) == m@;
                assert(s@.subrange(w, w + k as int) != m@);
            }
        }
    }
    false
}

/// The prompts the mock expects for a username: a masked password prompt
/// unless the username skips it, then a visible one-time-code prompt if the
/// username asks for one.
pub open spec fn mock_prompts(username: Seq<char>) -> Seq<ResponseView> {
    (if !contains_marker(username, "nopass"@) {
        seq![
            ResponseView::AuthMessage {
                auth_message_type: AuthMessageType::Secret,
                auth_message: "Password: "@,
            },
        ]
    } else {
        Seq::<ResponseView>::empty()
    }) + (if contains_marker(username, "otp"@) {
        seq![
            ResponseView::AuthMessage {
                auth_message_type: AuthMessageType::Visible,
                auth_message: "OTP: "@,
            },
        ]
    } else {
        Seq::<ResponseView>::empty()
    })
}

/// The response the mock gives to a request, by the queue it holds and the
/// injected refusal, if one is pending.
pub open spec fn mock_reply(
    q: Seq<ResponseView>,
    refusal: Option<(ErrorType, Seq<char>)>,
    req: RequestView,
) -> ResponseView {
    match req {
        RequestView::CreateSession { username } => match refusal {
            Some((k, d)) => ResponseView::Error { error_type: k, description: d },
            None => {
                let p = mock_prompts(username);
                if p.len() == 0 {
                    ResponseView::Success
                } else {
                    p[0]
                }
            },
        },
        RequestView::PostAuthMessageResponse { .. } => if q.len() == 0 {
            ResponseView::Success
        } else {
            q[0]
        },
        RequestView::StartSession { .. } => if q.len() == 0 {
            ResponseView::Success
        } else {
            ResponseView::Error {
                error_type: ErrorType::Error,
                description: "session has pending messages"@,
            }
        },
        RequestView::CancelSession => ResponseView::Success,
    }
}

/// The queue the mock holds after answering a request.
pub open spec fn mock_queue_after(
    q: Seq<ResponseView>,
    refusal: Option<(ErrorType, Seq<char>)>,
    req: RequestView,
) -> Seq<ResponseView> {
    match req {
        RequestView::CreateSession { username } => match refusal {
            Some(_) => Seq::<ResponseView>::empty(),
            None => {
                let p = mock_prompts(username);
                if p.len() == 0 {
                    p
                } else {
                    p.drop_first()
                }
            },
        },
        RequestView::PostAuthMessageResponse { .. } => if q.len() == 0 {
            q
        } else {
            q.drop_first()
        },
        RequestView::StartSession { .. } => q,
        RequestView::CancelSession => Seq::<ResponseView>::empty(),
    }
}

/// An injected refusal is spent by the session creation it answers.
pub open spec fn mock_refusal_after(
    refusal: Option<(ErrorType, Seq<char>)>,
    req: RequestView,
) -> Option<(ErrorType, Seq<char>)> {
    match req {
        RequestView::CreateSession { .. } => None,
        _ => refusal,
    }
}

/// The in-memory transport: a queue of prompts still to be answered, a log
/// of every request it was given, for inspection, and at most one injected
/// refusal still to be served.
pub struct MockTransport {
    queue: Vec<Response>,
    log: Vec<Request>,
    refusal: Option<(ErrorType, String)>,
    conn_id: Ghost<int>,
}

impl MockTransport {
    /// The prompts still queued, oldest first.
    pub closed spec fn queue_view(&self) -> Seq<ResponseView> {
        self.queue.deep_view()
    }

    /// The injected refusal still to be served, if any.
    pub closed spec fn refusal_view(&self) -> Option<(ErrorType, Seq<char>)> {
        match self.refusal {
            Some((k, d)) => Some((k, d@)),
            None => None,
        }
    }

    /// Every request this transport was given, oldest first.
    pub fn requests(&self) -> (r: &Vec<Request>)
        ensures
            r.deep_view() == self.sent(),
    {
        &self.log
    }

    /// A mock that answers the next session creation with the given error
    /// response, for exercising the recovery path.
    pub fn refusing(error_type: ErrorType, description: String) -> (r: MockTransport)
        ensures
            r.queue_view() == Seq::<ResponseView>::empty(),
            r.sent() == Seq::<RequestView>::empty(),
            r.refusal_view() == Some((error_type, description@)),
    {
        let r = MockTransport {
            queue: Vec::new(),
            log: Vec::new(),
            refusal: Some((error_type, description)),
            conn_id: Ghost(0int),
        };
        proof {
            assert(r.queue_view() =~= Seq::<ResponseView>::empty());
            assert(r.sent() =~= Seq::<RequestView>::empty());
        }
        r
    }
}

impl Transport for MockTransport {
    /// The connection's identity: a ghost value fixed at construction and
    /// never changed afterwards.
    closed spec fn id(&self) -> int {
        self.conn_id@
    }

    closed spec fn sent(&self) -> Seq<RequestView> {
        self.log.deep_view()
    }

    open spec fn fresh(&self) -> bool {
        &&& self.queue_view() == Seq::<ResponseView>::empty()
        &&& self.sent() == Seq::<RequestView>::empty()
        &&& self.refusal_view() is None
    }

    /// The mock's far side is this library's own, so the relation fixes the
    /// exchange completely: the response and the queue and refusal that
    /// remain are functions of the connection before and the request.
    open spec fn step(pre: Self, req: RequestView, resp: ResponseView, post: Self) -> bool {
        &&& resp == mock_reply(pre.queue_view(), pre.refusal_view(), req)
        &&& post.queue_view() == mock_queue_after(pre.queue_view(), pre.refusal_view(), req)
        &&& post.refusal_view() == mock_refusal_after(pre.refusal_view(), req)
        &&& post.sent() == pre.sent().push(req)
        &&& post.id() == pre.id()
    }

    fn new() -> (r: Result<Self, TransportError>)
        ensures
            r matches Ok(t) ==> t.queue_view() == Seq::<ResponseView>::empty(),
    {
        let t = MockTransport {
            queue: Vec::new(),
            log: Vec::new(),
            refusal: None,
            conn_id: Ghost(0int),
        };
        proof {
            assert(t.queue_view() =~= Seq::<ResponseView>::empty());
            assert(t.sent() =~= Seq::<RequestView>::empty());
        }
        Ok(t)
    }

    fn send_request(&mut self, request: Request) -> (r: Result<Response, TransportError>)
        ensures
            r is Ok,
            r matches Ok(resp) ==> resp@ == mock_reply(
                old(self).queue_view(),
                old(self).refusal_view(),
                request@,
            ),
            final(self).queue_view() == mock_queue_after(
                old(self).queue_view(),
                old(self).refusal_view(),
                request@,
            ),
            final(self).refusal_view() == mock_refusal_after(old(self).refusal_view(), request@),
    {
        let resp = match &request {
            Request::CreateSession { username } => {
                let pending = self.refusal.take();
                if let Some((k, d)) = pending {
                    self.queue = Vec::new();
                    proof {
                        assert(self.queue_view() =~= mock_queue_after(
                            old(self).queue_view(),
                            old(self).refusal_view(),
                            request@,
                        ));
                    }
                    Response::Error { error_type: k, description: d }
                } else {
                    let mut q: Vec<Response> = Vec::new();
                    if !contains_marker_exec(username.as_str(), "nopass") {
                        q.push(
                            Response::AuthMessage {
                                auth_message_type: AuthMessageType::Secret,
                                auth_message: "Password: ".to_owned(),
                            },
                        );
                    }
                    if contains_marker_exec(username.as_str(), "otp") {
                        q.push(
                            Response::AuthMessage {
                                auth_message_type: AuthMessageType::Visible,
                                auth_message: "OTP: ".to_owned(),
                            },
                        );
                    }
                    proof {
                        assert(q.deep_view() =~= mock_prompts(username@));
                    }
                    if q.len() == 0 {
                        self.queue = q;
                        Response::Success
                    } else {
                        let first = q.remove(0);
                        proof {
                            assert(q.deep_view() =~= mock_prompts(username@).drop_first());
                        }
                        self.queue = q;
                        first
                    }
                }
            },
            Request::PostAuthMessageResponse { .. } => {
                if self.queue.len() == 0 {
                    Response::Success
                } else {
                    let ghost pre = self.queue.deep_view();
                    let first = self.queue.remove(0);
                    proof {
                        assert(self.queue.deep_view() =~= pre.drop_first());
                    }
                    first
                }
            },
            Request::StartSession { .. } => {
                if self.queue.len() == 0 {
                    Response::Success
                } else {
                    Response::Error {
                        error_type: ErrorType::Error,
                        description: "session has pending messages".to_owned(),
                    }
                }
            },
            Request::CancelSession => {
                self.queue = Vec::new();
                proof {
                    assert(self.queue.deep_view() =~= Seq::<ResponseView>::empty());
                }
                Response::Success
            },
        };
        let ghost present = self.log.deep_view();
        self.log.push(request);
        proof {
            assert(self.log.deep_view() =~= present.push(request@));
        }
        Ok(resp)
    }
}

} // verus!
