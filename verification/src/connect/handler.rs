//! The per-kind handler registry.
//!
//! Each message kind (Event, Stream) owns one registry holding at most one
//! active consumer callback. The callback value itself is opaque here: the
//! embedding host passes whatever token it dispatches on.

use vstd::prelude::*;

verus! {

/// At most one active handler for one message kind; registering a new one
/// replaces the prior registration.
pub struct MessageHandler<H> {
    handler: Option<H>,
}

impl<H> View for MessageHandler<H> {
    type V = Option<H>;

    closed spec fn view(&self) -> Option<H> {
        self.handler
    }
}

impl<H> MessageHandler<H> {
    /// The registry a registration leaves behind, whatever was there before.
    pub closed spec fn spec_set(self, h: H) -> MessageHandler<H> {
        MessageHandler { handler: Some(h) }
    }

    /// A registry with no handler: envelopes of its kind are dropped.
    pub fn new() -> (r: Self)
        ensures
            r@ is None,
    {
        MessageHandler { handler: None }
    }

    /// Registers `h`, replacing any prior handler; dispatch of envelopes
    /// routed after this call sees only `h`.
    pub fn set_handler(&mut self, h: H)
        ensures
            *final(self) == old(self).spec_set(h),
            final(self)@ == Some(h),
    {
        self.handler = Some(h);
    }

    /// Removes any registered handler.
    pub fn clear(&mut self)
        ensures
            final(self)@ is None,
    {
        self.handler = None;
    }

    /// The currently registered handler, if any.
    pub fn current(&self) -> (r: &Option<H>)
        ensures
            *r == self@,
    {
        &self.handler
    }
}

/// Registering a second handler replaces the first: after two
/// registrations, dispatch consults only the second one, whatever the
/// registry held before either.
pub proof fn lemma_second_registration_wins<H>(r: MessageHandler<H>, a: H, b: H)
    ensures
        r.spec_set(a).spec_set(b)@ == Some(b),
        r.spec_set(a).spec_set(b) == r.spec_set(b),
{
}

} // verus!
