//! The RPC correlation engine.
//!
//! Two independent tables over the one active connection: a name-keyed
//! command table for inbound requests, and the pending-call table that
//! correlates outbound requests with their single eventual response.
//! Command handlers are opaque tokens; the embedding host invokes them.

use vstd::prelude::*;
use vstd::seq_lib::*;

use crate::base::{spec_message, AppError};
use crate::connect::data::{Request, RequestView, Response};

verus! {

/// No correlation id occurs twice among the pending calls.
pub open spec fn distinct_ids(s: Seq<u64>) -> bool {
    forall|i: int, j: int| 0 <= i < j < s.len() ==> s[i] != s[j]
}

/// The handler a command name resolves to: the latest registration for
/// that name wins.
pub open spec fn spec_lookup<C>(s: Seq<(String, C)>, name: Seq<char>) -> Option<C>
    decreases s.len(),
{
    if s.len() == 0 {
        None
    } else if s.last().0@ == name {
        Some(s.last().1)
    } else {
        spec_lookup(s.drop_last(), name)
    }
}

/// The error text an unknown command is answered with.
pub open spec fn spec_unknown_command_msg(c: Seq<char>) -> Seq<char> {
    "unknown command: "@ + c
}

/// Resolving one pending call touches no other call. Removing the slot at
/// one index removes exactly the id stored there: that id stays absent
/// afterwards (so a second response, a late response, or a timeout race
/// can never resolve it again), and every other id is pending afterwards
/// exactly if it was pending before. This is the exactly-once, own-id-only
/// resolution guarantee for concurrent outbound calls.
pub proof fn lemma_remove_pending_isolated(s: Seq<u64>, j: int)
    requires
        0 <= j < s.len(),
        distinct_ids(s),
    ensures
        s.remove(j).len() == s.len() - 1,
        !s.remove(j).contains(s[j]),
        forall|x: u64| x != s[j] ==> (s.remove(j).contains(x) <==> s.contains(x)),
        distinct_ids(s.remove(j)),
{
    s.remove_ensures(j);
    let t = s.remove(j);
    assert forall|k: int| 0 <= k < t.len() implies t[k] != s[j] by {
        if k < j {
            assert(t[k] == s[k]);
        } else {
            assert(t[k] == s[k + 1]);
        }
    }
    assert forall|x: u64| x != s[j] implies (t.contains(x) <==> s.contains(x)) by {
        if t.contains(x) {
            let k = choose|k: int| 0 <= k < t.len() && t[k] == x;
            if k < j {
                assert(s[k] == x);
            } else {
                assert(s[k + 1] == x);
            }
            assert(s.contains(x));
        }
        if s.contains(x) {
            let k = choose|k: int| 0 <= k < s.len() && s[k] == x;
            if k < j {
                assert(t[k] == x);
                assert(t.contains(x));
            } else if k > j {
                assert(t[k - 1] == x);
                assert(t.contains(x));
            }
        }
    }
    assert forall|a: int, b: int| 0 <= a < b < t.len() implies t[a] != t[b] by {
        if b < j {
        } else if a < j {
            assert(t[a] == s[a] && t[b] == s[b + 1]);
        } else {
            assert(t[a] == s[a + 1] && t[b] == s[b + 1]);
        }
    }
}

/// The RPC engine's state: the command table (inbound) and the
/// pending-call table with its id source (outbound).
pub struct RPC<C> {
    commands: Vec<(String, C)>,
    pending: Vec<u64>,
    next_id: u64,
}

impl<C> RPC<C> {
    /// The registered command handlers in registration order; a later
    /// entry for the same name shadows an earlier one.
    pub closed spec fn commands(&self) -> Seq<(String, C)> {
        self.commands@
    }

    /// The correlation ids of the outstanding outbound calls.
    pub closed spec fn pending(&self) -> Seq<u64> {
        self.pending@
    }

    /// The next correlation id to hand out.
    pub closed spec fn next_id(&self) -> u64 {
        self.next_id
    }

    /// Pending ids are distinct and all below the id source, so a fresh id
    /// can never collide with an outstanding call.
    pub open spec fn wf(&self) -> bool {
        &&& distinct_ids(self.pending())
        &&& forall|i: int| 0 <= i < self.pending().len() ==> self.pending()[i] < self.next_id()
    }

    /// An engine with no commands, no pending calls.
    pub fn new() -> (r: Self)
        ensures
            r.wf(),
            r.commands().len() == 0,
            r.pending().len() == 0,
            r.next_id() == 0,
    {
        RPC { commands: Vec::new(), pending: Vec::new(), next_id: 0 }
    }

    /// The next correlation id to be handed out; lets a caller check the
    /// id space before opening a call.
    pub fn next_call_id(&self) -> (n: u64)
        ensures
            n == self.next_id(),
    {
        self.next_id
    }

    /// Registers `handler` under `name`, replacing any earlier
    /// registration for that name and leaving every other name's handler
    /// as it was.
    pub fn add_command(&mut self, name: String, handler: C)
        ensures
            final(self).commands() == old(self).commands().push((name, handler)),
            final(self).pending() == old(self).pending(),
            final(self).next_id() == old(self).next_id(),
            spec_lookup(final(self).commands(), name@) == Some(handler),
            forall|n: Seq<char>| n != name@ ==> spec_lookup(final(self).commands(), n)
                == spec_lookup(old(self).commands(), n),
            old(self).wf() ==> final(self).wf(),
    {
        let ghost before = self.commands@;
        self.commands.push((name, handler));
        proof {
            assert(self.commands@.drop_last() =~= before);
        }
    }

    /// Looks up the handler registered for `name`: the latest registration
    /// wins, `None` where the command is unknown.
    pub fn lookup_command(&self, name: &String) -> (r: Option<&C>)
        ensures
            match r {
                Some(c) => spec_lookup(self.commands(), name@) == Some(*c),
                None => spec_lookup(self.commands(), name@) is None,
            },
    {
        let mut i: usize = self.commands.len();
        proof {
            assert(self.commands@.take(i as int) =~= self.commands@);
        }
        while i > 0
            invariant
                i <= self.commands@.len(),
                spec_lookup(self.commands@, name@) == spec_lookup(
                    self.commands@.take(i as int),
                    name@,
                ),
            decreases i,
        {
            i = i - 1;
            proof {
                assert(self.commands@.take(i as int + 1).last() == self.commands@[i as int]);
                assert(self.commands@.take(i as int + 1).drop_last() =~= self.commands@.take(
                    i as int,
                ));
            }
            if self.commands[i].0 == *name {
                return Some(&self.commands[i].1);
            }
        }
        proof {
            assert(self.commands@.take(0).len() == 0);
        }
        None
    }

    /// Opens an outbound call: picks a correlation id distinct from every
    /// pending call's, records the new pending slot, and returns the id
    /// with the request to send.
    pub fn begin_call(&mut self, command: String, params: Option<String>, timeout_millis: Option<
        u64,
    >) -> (r: (u64, Request))
        requires
            old(self).wf(),
            old(self).next_id() < u64::MAX,
        ensures
            final(self).wf(),
            r.0 == old(self).next_id(),
            !old(self).pending().contains(r.0),
            final(self).pending() == old(self).pending().push(r.0),
            final(self).next_id() == old(self).next_id() + 1,
            final(self).commands() == old(self).commands(),
            r.1@ == (RequestView {
                id: r.0,
                command: command@,
                params: params.deep_view(),
                timeout_millis: timeout_millis.deep_view(),
            }),
    {
        let id = self.next_id;
        self.next_id = self.next_id + 1;
        self.pending.push(id);
        proof {
            assert(!old(self).pending().contains(id));
            assert(distinct_ids(self.pending@)) by {
                assert(forall|k: int|
                    0 <= k < old(self).pending().len() ==> self.pending@[k] == old(
                        self,
                    ).pending()[k]);
            }
        }
        (id, Request { id, command, params, timeout_millis })
    }

    /// Feeds an inbound response to the pending-call table. When a call
    /// with that id is pending, it is consumed exactly once: removed from
    /// the table, with the outcome for the waiting caller — the response's
    /// data on success, a remote error where the response carries an error
    /// description. Any other pending call is untouched. When no call with
    /// that id is pending (it was already resolved, timed out or failed),
    /// the response is dropped and nothing changes.
    pub fn resolve(&mut self, resp: Response) -> (r: Option<Result<Response, AppError>>)
        requires
            old(self).wf(),
        ensures
            final(self).wf(),
            final(self).commands() == old(self).commands(),
            final(self).next_id() == old(self).next_id(),
            old(self).pending().contains(resp.id) ==> {
                &&& exists|j: int|
                    0 <= j < old(self).pending().len() && old(self).pending()[j] == resp.id
                        && final(self).pending() == old(self).pending().remove(j)
                &&& !final(self).pending().contains(resp.id)
                &&& forall|x: u64|
                    x != resp.id ==> (final(self).pending().contains(x) <==> old(
                        self,
                    ).pending().contains(x))
                &&& match resp.error {
                    Some(e) => r == Some(Err::<Response, AppError>(AppError::Remote(e))),
                    None => r == Some(Ok::<Response, AppError>(resp)),
                }
            },
            !old(self).pending().contains(resp.id) ==> r is None && final(self).pending() == old(
                self,
            ).pending(),
    {
        let mut i: usize = 0;
        while i < self.pending.len()
            invariant
                i <= self.pending@.len(),
                forall|k: int| 0 <= k < i ==> self.pending@[k] != resp.id,
                self == old(self),
                old(self).wf(),
            decreases self.pending@.len() - i,
        {
            if self.pending[i] == resp.id {
                self.pending.remove(i);
                proof {
                    lemma_remove_pending_isolated(old(self).pending(), i as int);
                }
                let Response { id, data, error } = resp;
                match error {
                    Some(e) => {
                        return Some(Err(AppError::Remote(e)));
                    },
                    None => {
                        return Some(Ok(Response { id, data, error: None }));
                    },
                }
            }
            i = i + 1;
        }
        proof {
            assert(!old(self).pending().contains(resp.id));
        }
        None
    }

    /// Fails the pending call `id` with a timeout error: the slot is
    /// consumed, every other call is untouched. `None` when no such call
    /// is pending any more (its response won the race).
    pub fn fail_timeout(&mut self, id: u64) -> (r: Option<AppError>)
        requires
            old(self).wf(),
        ensures
            final(self).wf(),
            final(self).commands() == old(self).commands(),
            final(self).next_id() == old(self).next_id(),
            old(self).pending().contains(id) ==> {
                &&& r == Some(AppError::Timeout)
                &&& !final(self).pending().contains(id)
                &&& forall|x: u64|
                    x != id ==> (final(self).pending().contains(x) <==> old(
                        self,
                    ).pending().contains(x))
                &&& final(self).pending().len() == old(self).pending().len() - 1
            },
            !old(self).pending().contains(id) ==> r is None && final(self).pending() == old(
                self,
            ).pending(),
    {
        let mut i: usize = 0;
        while i < self.pending.len()
            invariant
                i <= self.pending@.len(),
                forall|k: int| 0 <= k < i ==> self.pending@[k] != id,
                self == old(self),
                old(self).wf(),
            decreases self.pending@.len() - i,
        {
            if self.pending[i] == id {
                self.pending.remove(i);
                proof {
                    lemma_remove_pending_isolated(old(self).pending(), i as int);
                }
                return Some(AppError::Timeout);
            }
            i = i + 1;
        }
        proof {
            assert(!old(self).pending().contains(id));
        }
        None
    }

    /// Fails every pending call with a connection-lost error — the
    /// connection-disposal cleanup. Returns one `(id, error)` pair per
    /// formerly pending call, in table order; the table is empty
    /// afterwards, so nothing outstanding can leak into a later
    /// connection. The command table and the id source survive.
    pub fn fail_all(&mut self) -> (failed: Vec<(u64, AppError)>)
        requires
            old(self).wf(),
        ensures
            final(self).wf(),
            final(self).commands() == old(self).commands(),
            final(self).next_id() == old(self).next_id(),
            final(self).pending().len() == 0,
            failed@.len() == old(self).pending().len(),
            forall|i: int|
                0 <= i < failed@.len() ==> failed@[i].0 == old(self).pending()[i] && failed@[i].1
                    == AppError::ConnectionLost,
    {
        let ids = self.pending.split_off(0);
        proof {
            assert(self.pending@ =~= Seq::<u64>::empty());
            assert(ids@ =~= old(self).pending());
        }
        let mut failed: Vec<(u64, AppError)> = Vec::new();
        let mut i: usize = 0;
        while i < ids.len()
            invariant
                i <= ids@.len(),
                ids@ == old(self).pending(),
                failed@.len() == i,
                forall|k: int|
                    0 <= k < i ==> failed@[k].0 == ids@[k] && failed@[k].1
                        == AppError::ConnectionLost,
            decreases ids@.len() - i,
        {
            failed.push((ids[i], AppError::ConnectionLost));
            proof {
                assert(failed@[i as int] == (ids@[i as int], AppError::ConnectionLost));
            }
            i = i + 1;
        }
        failed
    }
}

/// Builds the reply to a request whose command name no handler is
/// registered for: an explicit unknown-command error keyed to the
/// request's id, not a silent drop.
pub fn reply_unknown(req: &Request) -> (r: Response)
    ensures
        r.id == req.id,
        r.data is None,
        r@.error == Some(spec_unknown_command_msg(req.command@)),
{
    let msg = String::from_str("unknown command: ").concat(req.command.as_str());
    Response { id: req.id, data: None, error: Some(msg) }
}

/// Builds the one response owed to an inbound request, keyed to the
/// request's id, whatever the handler outcome was: the handler's data on
/// success, the failure's description carried back as a response error —
/// never a transport failure, never a missing reply.
pub fn reply_for(req: &Request, outcome: Result<Response, AppError>) -> (r: Response)
    ensures
        r.id == req.id,
        match outcome {
            Ok(resp) => r.data == resp.data && r.error == resp.error,
            Err(e) => r.data is None && r@.error == Some(spec_message(e)),
        },
{
    match outcome {
        Ok(resp) => Response { id: req.id, data: resp.data, error: resp.error },
        Err(e) => {
            let msg = e.message();
            Response { id: req.id, data: None, error: Some(msg) }
        },
    }
}

} // verus!
