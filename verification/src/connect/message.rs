//! The connection manager.
//!
//! One instance owns the single active connection, the two per-kind
//! handler registries and the RPC engine. The asynchronous receive loop
//! and the transport writes live with the embedding host; the host feeds
//! every received frame to [`MessageManager::process_frame`] and performs
//! the action it returns, so every routing decision is made — and
//! verified — here.

use vstd::prelude::*;

use crate::base::AppError;
use crate::connect::codec::{decode, encode, lemma_decode_encode, spec_decode, spec_encode};
use crate::connect::data::{Envelope, EnvelopeView, Event, Request, RequestView, Response, Stream,
    StreamView};
use crate::connect::handler::MessageHandler;
use crate::connect::rpc::{spec_lookup, spec_unknown_command_msg, reply_unknown, RPC};

verus! {

/// Where one inbound frame went, and what the driving loop must do next.
pub enum Routed {
    /// An event with no registered handler: dropped silently.
    EventDropped,
    /// Deliver this event to the currently registered event handler.
    EventToHandler(Event),
    /// A stream chunk with no registered handler: dropped silently.
    StreamDropped,
    /// Deliver this stream chunk to the currently registered stream
    /// handler.
    StreamToHandler(Stream),
    /// Invoke the command handler registered under the request's command
    /// name, then answer with exactly one response keyed to its id.
    CommandToHandler(Request),
    /// No handler is registered under the request's command name: send
    /// this unknown-command reply back.
    ReplyUnknown(Response),
    /// The pending call with this id is consumed: complete its waiting
    /// caller with this outcome.
    CallResolved(u64, Result<Response, AppError>),
    /// A response whose id matches no pending call (already resolved,
    /// timed out, or failed): dropped.
    LateResponseDropped(u64),
}

/// The connection manager: the connection slot, both handler registries,
/// and the RPC engine.
pub struct MessageManager<E, S, C> {
    /// Whether a connection is currently installed. Mutated only by
    /// `init` and `dispose`.
    pub connected: bool,
    pub events: MessageHandler<E>,
    pub streams: MessageHandler<S>,
    pub rpc: RPC<C>,
}

/// What routing one decoded envelope `v` must do to the manager and which
/// action it must return. Event, Stream and Request envelopes leave the
/// pending-call table alone; a Response envelope consumes exactly the
/// pending call with its id, if there is one.
pub open spec fn spec_routed<E, S, C>(
    pre: MessageManager<E, S, C>,
    post: MessageManager<E, S, C>,
    v: EnvelopeView,
    r: Routed,
) -> bool {
    match v {
        EnvelopeView::Event(ev) => post.rpc.pending() == pre.rpc.pending() && (match pre.events@ {
            Some(_) => r matches Routed::EventToHandler(e) && e@ == ev,
            None => r is EventDropped,
        }),
        EnvelopeView::Stream(sv) => post.rpc.pending() == pre.rpc.pending() && (
        match pre.streams@ {
            Some(_) => r matches Routed::StreamToHandler(s) && s@ == sv,
            None => r is StreamDropped,
        }),
        EnvelopeView::Request(rv) => post.rpc.pending() == pre.rpc.pending() && (
        match spec_lookup(pre.rpc.commands(), rv.command) {
            Some(_) => r matches Routed::CommandToHandler(rq) && rq@ == rv,
            None => r matches Routed::ReplyUnknown(resp) && resp.id == rv.id && resp.data is None
                && resp@.error == Some(spec_unknown_command_msg(rv.command)),
        }),
        EnvelopeView::Response(rv) => if pre.rpc.pending().contains(rv.id) {
            &&& r matches Routed::CallResolved(id, outcome) && id == rv.id && (match rv.error {
                Some(e) => outcome matches Err(ae) && ae matches AppError::Remote(m) && m@ == e,
                None => outcome matches Ok(resp) && resp@ == rv,
            })
            &&& !post.rpc.pending().contains(rv.id)
            &&& forall|x: u64|
                x != rv.id ==> (post.rpc.pending().contains(x) <==> pre.rpc.pending().contains(x))
            &&& post.rpc.pending().len() == pre.rpc.pending().len() - 1
        } else {
            r matches Routed::LateResponseDropped(id) && id == rv.id && post.rpc.pending()
                == pre.rpc.pending()
        },
    }
}

/// No call outcome leaks across connections: disposal leaves the pending
/// table empty, so in a session installed afterwards no response — with
/// whatever correlation id — finds a pending call from the old
/// connection; it can only be dropped as late.
pub proof fn lemma_no_leak_across_connections<E, S, C>(m: MessageManager<E, S, C>, id: u64)
    requires
        m.rpc.pending().len() == 0,
    ensures
        !m.rpc.pending().contains(id),
{
}

impl<E, S, C> MessageManager<E, S, C> {
    /// Whether a connection is currently installed.
    pub open spec fn spec_connected(&self) -> bool {
        self.connected
    }

    /// The manager is well formed when its RPC engine is.
    pub open spec fn wf(&self) -> bool {
        self.rpc.wf()
    }

    /// A manager with no connection, no handlers, no commands, no pending
    /// calls.
    pub fn new() -> (r: Self)
        ensures
            r.wf(),
            !r.spec_connected(),
            r.events@ is None,
            r.streams@ is None,
            r.rpc.commands().len() == 0,
            r.rpc.pending().len() == 0,
            r.rpc.next_id() == 0,
    {
        MessageManager {
            connected: false,
            events: MessageHandler::new(),
            streams: MessageHandler::new(),
            rpc: RPC::new(),
        }
    }

    /// Whether a connection is currently installed.
    pub fn is_connected(&self) -> (b: bool)
        ensures
            b == self.spec_connected(),
    {
        self.connected
    }

    /// Installs a newly established connection as current. Fails exactly
    /// when one is already installed and not yet disposed; nothing else
    /// changes either way.
    pub fn init(&mut self) -> (r: Result<(), AppError>)
        ensures
            final(self).events == old(self).events,
            final(self).streams == old(self).streams,
            final(self).rpc == old(self).rpc,
            match r {
                Ok(()) => !old(self).spec_connected() && final(self).spec_connected(),
                Err(e) => e == AppError::AlreadyConnected && old(self).spec_connected()
                    && final(self).spec_connected(),
            },
    {
        if self.connected {
            Err(AppError::AlreadyConnected)
        } else {
            self.connected = true;
            Ok(())
        }
    }

    /// Tears down the current connection and fails every pending call
    /// with a connection-lost error: one `(id, error)` pair per formerly
    /// pending call comes back for the host to complete. Handler and
    /// command registrations survive disposal; only the pending-call
    /// table is reset, so nothing outstanding leaks into a later
    /// connection.
    pub fn dispose(&mut self) -> (failed: Vec<(u64, AppError)>)
        requires
            old(self).wf(),
        ensures
            final(self).wf(),
            !final(self).spec_connected(),
            final(self).events == old(self).events,
            final(self).streams == old(self).streams,
            final(self).rpc.commands() == old(self).rpc.commands(),
            final(self).rpc.next_id() == old(self).rpc.next_id(),
            final(self).rpc.pending().len() == 0,
            failed@.len() == old(self).rpc.pending().len(),
            forall|i: int|
                0 <= i < failed@.len() ==> failed@[i].0 == old(self).rpc.pending()[i]
                    && failed@[i].1 == AppError::ConnectionLost,
    {
        self.connected = false;
        self.rpc.fail_all()
    }

    /// Serializes an envelope for the current connection; the caller
    /// writes the returned frame to the transport. Fails exactly when no
    /// connection is installed. The frame is the envelope's exact wire
    /// image and decodes back to it.
    pub fn send_envelope(&self, env: &Envelope) -> (r: Result<Vec<u8>, AppError>)
        ensures
            match r {
                Ok(frame) => self.spec_connected() && frame@ == spec_encode(env@) && spec_decode(
                    frame@,
                ) == Some(env@),
                Err(e) => e == AppError::NotConnected && !self.spec_connected(),
            },
    {
        if !self.connected {
            return Err(AppError::NotConnected);
        }
        let frame = encode(env);
        proof {
            lemma_decode_encode(env@);
        }
        Ok(frame)
    }

    /// Builds and serializes a Stream envelope carrying `bytes` under
    /// `tag`. The frame decodes back to exactly that tag and those bytes,
    /// so chunks written in order are observed in order, unchanged, at the
    /// receiving side's stream handler.
    pub fn send_stream(&self, tag: String, bytes: Vec<u8>) -> (r: Result<Vec<u8>, AppError>)
        ensures
            match r {
                Ok(frame) => {
                    &&& self.spec_connected()
                    &&& frame@ == spec_encode(
                        EnvelopeView::Stream(StreamView { tag: tag@, bytes: bytes@ }),
                    )
                    &&& spec_decode(frame@) == Some(
                        EnvelopeView::Stream(StreamView { tag: tag@, bytes: bytes@ }),
                    )
                },
                Err(e) => e == AppError::NotConnected && !self.spec_connected(),
            },
    {
        self.send_envelope(&Envelope::Stream(Stream { tag, bytes }))
    }

    /// Opens an outbound call on the current connection: registers a
    /// pending slot under a correlation id no other pending call uses and
    /// returns the id and the request frame to write. The caller then
    /// waits until the call is resolved by its response, its timeout, or
    /// disposal — whichever comes first.
    pub fn call_remote_begin(
        &mut self,
        command: String,
        params: Option<String>,
        timeout_millis: Option<u64>,
    ) -> (r: Result<(u64, Vec<u8>), AppError>)
        requires
            old(self).wf(),
            old(self).rpc.next_id() < u64::MAX,
        ensures
            final(self).wf(),
            final(self).events == old(self).events,
            final(self).streams == old(self).streams,
            final(self).rpc.commands() == old(self).rpc.commands(),
            final(self).spec_connected() == old(self).spec_connected(),
            match r {
                Ok((id, frame)) => {
                    &&& old(self).spec_connected()
                    &&& id == old(self).rpc.next_id()
                    &&& !old(self).rpc.pending().contains(id)
                    &&& final(self).rpc.pending() == old(self).rpc.pending().push(id)
                    &&& final(self).rpc.next_id() == old(self).rpc.next_id() + 1
                    &&& frame@ == spec_encode(
                        EnvelopeView::Request(
                            RequestView {
                                id,
                                command: command@,
                                params: params.deep_view(),
                                timeout_millis: timeout_millis.deep_view(),
                            },
                        ),
                    )
                    &&& spec_decode(frame@) == Some(
                        EnvelopeView::Request(
                            RequestView {
                                id,
                                command: command@,
                                params: params.deep_view(),
                                timeout_millis: timeout_millis.deep_view(),
                            },
                        ),
                    )
                },
                Err(e) => e == AppError::NotConnected && !old(self).spec_connected()
                    && *final(self) == *old(self),
            },
    {
        if !self.connected {
            return Err(AppError::NotConnected);
        }
        let (id, req) = self.rpc.begin_call(command, params, timeout_millis);
        let env = Envelope::Request(req);
        let frame = encode(&env);
        proof {
            lemma_decode_encode(env@);
        }
        Ok((id, frame))
    }

    /// One step of the receive loop: decode one frame and route it by
    /// kind — Event and Stream to their handler registries, Request to
    /// the command table, Response to the pending-call table. Fails with
    /// a protocol error exactly on a malformed frame (the loop then ends
    /// and the connection is torn down). Handler registrations, the
    /// command table and the connection slot are never changed by routing.
    pub fn process_frame(&mut self, frame: &Vec<u8>) -> (r: Result<Routed, AppError>)
        requires
            old(self).wf(),
        ensures
            final(self).wf(),
            final(self).events == old(self).events,
            final(self).streams == old(self).streams,
            final(self).rpc.commands() == old(self).rpc.commands(),
            final(self).rpc.next_id() == old(self).rpc.next_id(),
            final(self).spec_connected() == old(self).spec_connected(),
            match r {
                Err(e) => e == AppError::Protocol && spec_decode(frame@) is None
                    && final(self).rpc.pending() == old(self).rpc.pending(),
                Ok(routed) => spec_decode(frame@) matches Some(v) && spec_routed(
                    *old(self),
                    *final(self),
                    v,
                    routed,
                ),
            },
    {
        let env = match decode(frame) {
            None => {
                return Err(AppError::Protocol);
            },
            Some(env) => env,
        };
        match env {
            Envelope::Event(ev) => {
                if self.events.current().is_some() {
                    Ok(Routed::EventToHandler(ev))
                } else {
                    Ok(Routed::EventDropped)
                }
            },
            Envelope::Stream(sv) => {
                if self.streams.current().is_some() {
                    Ok(Routed::StreamToHandler(sv))
                } else {
                    Ok(Routed::StreamDropped)
                }
            },
            Envelope::Request(rq) => {
                let known = match self.rpc.lookup_command(&rq.command) {
                    Some(_) => true,
                    None => false,
                };
                if known {
                    Ok(Routed::CommandToHandler(rq))
                } else {
                    Ok(Routed::ReplyUnknown(reply_unknown(&rq)))
                }
            },
            Envelope::Response(rs) => {
                let id = rs.id;
                match self.rpc.resolve(rs) {
                    Some(outcome) => Ok(Routed::CallResolved(id, outcome)),
                    None => Ok(Routed::LateResponseDropped(id)),
                }
            },
        }
    }
}

} // verus!
