//! The capability set for exchanging one request against one response.
//!
//! A transport owns one connection. The protocol is strictly synchronous:
//! one framed request goes out, and the call blocks until one framed
//! response has been read back; pipelining is not permitted. The trait's
//! contract names the connection's identity and the log of requests sent,
//! so that everything built on top can state that the connection is never
//! silently replaced and that no request is sent twice.

use vstd::prelude::*;

use crate::frame::{decode_response_wire, encode_request_wire};
use crate::proto::{Request, RequestView, Response, ResponseView};

verus! {

/// Which part of the error taxonomy a connection failure falls under.
#[derive(Debug, Clone, Copy, PartialEq, Eq, Structural)]
pub enum TransportErrorKind {
    /// The connection parameters are absent or unusable; fatal at startup.
    Configuration,
    /// The channel could not be established or failed during an exchange.
    Connection,
    /// A frame was truncated, its length wrong, or its payload malformed.
    Framing,
}

/// An opaque failure of the underlying channel. It is fatal for the attempt
/// it interrupts: the holder discards the current connection and starts over
/// from a fresh one; nothing is retried automatically.
#[derive(Debug)]
pub struct TransportError {
    pub kind: TransportErrorKind,
    pub description: String,
}

impl TransportError {
    /// A description of the failure, for display.
    pub fn message(&self) -> (r: &String)
        ensures
            r@ == self.description@,
    {
        &self.description
    }
}

/// One connection that exchanges single request/response pairs.
pub trait Transport: Sized {
    /// A name for the connection's identity; it never changes across
    /// exchanges, so whoever holds the transport holds the same connection.
    spec fn id(&self) -> int;

    /// The requests handed to the connection so far, oldest first — every
    /// attempt, whether or not a response came back.
    spec fn sent(&self) -> Seq<RequestView>;

    /// What a freshly opened connection looks like: in particular, nothing
    /// has been sent over it.
    spec fn fresh(&self) -> bool;

    /// How one exchange relates the connection before it, the request sent,
    /// the response received, and the connection after it. For a connection
    /// whose far side this library also specifies — the in-memory one — the
    /// relation fixes the response exactly; for a real channel it promises
    /// only the bookkeeping.
    spec fn step(pre: Self, req: RequestView, resp: ResponseView, post: Self) -> bool;

    /// Opens a connection; a fresh connection has sent nothing.
    fn new() -> (r: Result<Self, TransportError>)
        ensures
            r matches Ok(t) ==> t.fresh() && t.sent() == Seq::<RequestView>::empty(),
    ;

    /// Sends exactly one framed request and blocks until exactly one framed
    /// response is read back. The connection's identity is preserved, the
    /// request is handed to the connection at most once — never retried —
    /// and on success the exchange satisfies the connection's step relation;
    /// on failure the connection is no longer usable and nothing more is
    /// promised of it.
    fn send_request(&mut self, request: Request) -> (r: Result<Response, TransportError>)
        ensures
            final(self).id() == old(self).id(),
            final(self).sent() == old(self).sent() || final(self).sent() == old(
                self,
            ).sent().push(request@),
            r matches Ok(resp) ==> final(self).sent() == old(self).sent().push(request@)
                && Self::step(*old(self), request@, resp@, *final(self)),
    ;
}

/// One raw byte channel to the daemon, as the surrounding program provides
/// it: it carries one request frame out and one response frame back, and
/// promises nothing about the bytes. Everything that interprets them — the
/// framing, the decoding, the bookkeeping of what was sent — stays in this
/// library, in [`ChannelTransport`], and holds whatever bytes come back.
pub trait Channel: Sized {
    /// Opens the channel.
    fn open() -> Result<Self, TransportError>;

    /// Writes one request frame and reads back one whole response frame,
    /// length field included.
    fn exchange(&mut self, frame: Vec<u8>) -> Result<Vec<u8>, TransportError>;
}

/// A transport over a raw byte channel: requests are written and responses
/// read back through this library's wire codec, so a malformed frame from
/// the channel is rejected here, whatever the channel did.
pub struct ChannelTransport<C: Channel> {
    channel: C,
    sent_log: Ghost<Seq<RequestView>>,
    conn_id: Ghost<int>,
}

impl<C: Channel> Transport for ChannelTransport<C> {
    /// The connection's identity: a ghost value fixed when the channel is
    /// opened and never changed afterwards.
    closed spec fn id(&self) -> int {
        self.conn_id@
    }

    closed spec fn sent(&self) -> Seq<RequestView> {
        self.sent_log@
    }

    open spec fn fresh(&self) -> bool {
        self.sent() == Seq::<RequestView>::empty()
    }

    /// The channel's far side is outside this library, so the relation fixes
    /// only the bookkeeping: the request was handed over exactly once and
    /// the identity kept; the response is whatever decoded.
    open spec fn step(pre: Self, req: RequestView, resp: ResponseView, post: Self) -> bool {
        post.sent() == pre.sent().push(req) && post.id() == pre.id()
    }

    fn new() -> (r: Result<Self, TransportError>) {
        match C::open() {
            Ok(channel) => Ok(
                ChannelTransport {
                    channel,
                    sent_log: Ghost(Seq::<RequestView>::empty()),
                    conn_id: Ghost(0int),
                },
            ),
            Err(e) => Err(e),
        }
    }

    fn send_request(&mut self, request: Request) -> (r: Result<Response, TransportError>) {
        let frame = match encode_request_wire(&request) {
            Some(frame) => frame,
            None => {
                return Err(
                    TransportError {
                        kind: TransportErrorKind::Framing,
                        description: "request too long for the length field".to_owned(),
                    },
                );
            },
        };
        proof {
            self.sent_log@ = self.sent_log@.push(request@);
        }
        let reply = match self.channel.exchange(frame) {
            Ok(reply) => reply,
            Err(e) => {
                return Err(e);
            },
        };
        match decode_response_wire(&reply) {
            Ok(response) => Ok(response),
            Err(_) => Err(
                TransportError {
                    kind: TransportErrorKind::Framing,
                    description: "malformed response frame".to_owned(),
                },
            ),
        }
    }
}

} // verus!
