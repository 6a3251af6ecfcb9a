//! The server-side session around the connection manager.
//!
//! The embedding host accepts a socket, completes the transport
//! handshake, and then drives one session at a time: `init` for the new
//! connection, one `process_frame` per received frame, `dispose` when the
//! connection ends. Everything the host must decide per frame is decided
//! here; the host only performs I/O and invokes its own callbacks.

use vstd::prelude::*;

use crate::base::{spec_version_json, version_json, AppError};
use crate::connect::data::{Request, Response};
use crate::connect::message::MessageManager;
use crate::connect::rpc::spec_lookup;

verus! {

/// One server session: the connection manager with its registries and
/// RPC engine, set up with this server's standard handlers.
pub struct AppServer<E, S, C> {
    pub manager: MessageManager<E, S, C>,
}

impl<E, S, C> AppServer<E, S, C> {
    /// The session is well formed when its connection manager is.
    pub open spec fn wf(&self) -> bool {
        self.manager.wf()
    }

    /// A server with no connection and nothing registered.
    pub fn new() -> (r: Self)
        ensures
            r.wf(),
            !r.manager.spec_connected(),
            r.manager.events@ is None,
            r.manager.streams@ is None,
            r.manager.rpc.commands().len() == 0,
            r.manager.rpc.pending().len() == 0,
    {
        AppServer { manager: MessageManager::new() }
    }

    /// Prepares the session for a freshly established connection:
    /// installs it, registers the host's event and stream handlers, and
    /// registers `handle_get_version` as the handler of the
    /// administrative `get_version` command. Fails exactly when a prior
    /// connection was not disposed; nothing is registered then.
    pub fn init(&mut self, on_event: E, on_stream: S, handle_get_version: C) -> (r: Result<
        (),
        AppError,
    >)
        requires
            old(self).wf(),
        ensures
            final(self).wf(),
            match r {
                Ok(()) => {
                    &&& !old(self).manager.spec_connected()
                    &&& final(self).manager.spec_connected()
                    &&& final(self).manager.events@ == Some(on_event)
                    &&& final(self).manager.streams@ == Some(on_stream)
                    &&& spec_lookup(final(self).manager.rpc.commands(), "get_version"@) == Some(
                        handle_get_version,
                    )
                    &&& forall|n: Seq<char>|
                        n != "get_version"@ ==> spec_lookup(final(self).manager.rpc.commands(), n)
                            == spec_lookup(old(self).manager.rpc.commands(), n)
                    &&& final(self).manager.rpc.pending() == old(self).manager.rpc.pending()
                },
                Err(e) => e == AppError::AlreadyConnected && old(self).manager.spec_connected()
                    && *final(self) == *old(self),
            },
    {
        match self.manager.init() {
            Err(e) => Err(e),
            Ok(()) => {
                self.manager.events.set_handler(on_event);
                self.manager.streams.set_handler(on_stream);
                self.manager.rpc.add_command(String::from_str("get_version"), handle_get_version);
                Ok(())
            },
        }
    }

    /// Ends the session: tears the connection down and fails every
    /// pending call with a connection-lost error. Registrations survive
    /// for the next connection; the pending-call table is left empty.
    pub fn dispose(&mut self) -> (failed: Vec<(u64, AppError)>)
        requires
            old(self).wf(),
        ensures
            final(self).wf(),
            !final(self).manager.spec_connected(),
            final(self).manager.events == old(self).manager.events,
            final(self).manager.streams == old(self).manager.streams,
            final(self).manager.rpc.commands() == old(self).manager.rpc.commands(),
            final(self).manager.rpc.pending().len() == 0,
            failed@.len() == old(self).manager.rpc.pending().len(),
            forall|i: int|
                0 <= i < failed@.len() ==> failed@[i].0 == old(self).manager.rpc.pending()[i]
                    && failed@[i].1 == AppError::ConnectionLost,
    {
        self.manager.dispose()
    }
}

/// The `get_version` administrative command: always succeeds, answering
/// with the configured version constant as a JSON string. The dispatcher
/// keys the reply to the request's id.
pub fn get_version(_req: &Request) -> (r: Result<Response, AppError>)
    ensures
        r matches Ok(resp) && resp@.data == Some(spec_version_json()) && resp.error is None,
{
    Ok(Response::from_data(version_json()))
}

} // verus!
