//! The publisher actor: the single owner of one broker connection, fed
//! through a bounded mailbox.
//!
//! The actor is modelled as a state machine over its mailbox.  A driver task
//! owns the connection, accepts submissions through `try_submit`, and takes
//! wire-ready messages one at a time through `take_wire_message`, so at most
//! one publish is ever in flight on the connection and publish order equals
//! mailbox dequeue order.

use crate::envelope::{encode_event, ser_event, Event, EventMessage, EventV};
use crate::settings::NatsClientSettings;
use vstd::prelude::*;

verus! {

/// Configuration of one publisher: where to connect, the subject every
/// envelope is published on, and the mailbox bound.
pub struct NatsPublisherConfig {
    pub client_settings: NatsClientSettings,
    pub subject: String,
    pub mailbox_size: usize,
}

/// The actor's lifecycle.
#[derive(Clone, Copy, Debug, PartialEq, Eq, Structural)]
pub enum ActorState {
    Starting,
    Running,
    Stopped,
}

/// The publisher actor's state: its configuration, lifecycle state and
/// bounded mailbox of pending publish requests.
pub struct NatsPublisher {
    pub config: NatsPublisherConfig,
    pub state: ActorState,
    pub mailbox: Vec<EventMessage>,
}

/// The queued envelopes, oldest first.
pub open spec fn queued(p: NatsPublisher) -> Seq<EventV> {
    p.mailbox@.map_values(|m: EventMessage| m.event@)
}

/// The mailbox never holds more than the configured bound.
pub open spec fn wf_publisher(p: NatsPublisher) -> bool {
    p.mailbox@.len() <= p.config.mailbox_size
}

/// What submitting does to a mailbox: appended when there is room, rejected
/// unchanged when full.
pub open spec fn spec_submit(q: Seq<EventV>, cap: int, e: EventV) -> (Seq<EventV>, bool) {
    if q.len() < cap {
        (q.push(e), true)
    } else {
        (q, false)
    }
}

impl NatsPublisher {
    /// A new actor for this configuration: not yet connected, empty mailbox.
    pub fn start_new(config: NatsPublisherConfig) -> (r: NatsPublisher)
        ensures
            r.state == ActorState::Starting,
            queued(r).len() == 0,
            r.config == config,
            wf_publisher(r),
    {
        let r = NatsPublisher { config, state: ActorState::Starting, mailbox: Vec::new() };
        proof {
            assert(queued(r) =~= Seq::<EventV>::empty());
        }
        r
    }

    /// The driver calls this once its connection is established; only then
    /// does the actor accept work.
    pub fn connected(&mut self)
        requires
            old(self).state == ActorState::Starting,
        ensures
            final(self).state == ActorState::Running,
            final(self).mailbox == old(self).mailbox,
            final(self).config == old(self).config,
    {
        self.state = ActorState::Running;
    }

    /// The driver calls this when its connection is permanently gone.
    pub fn stop(&mut self)
        ensures
            final(self).state == ActorState::Stopped,
            final(self).mailbox == old(self).mailbox,
            final(self).config == old(self).config,
    {
        self.state = ActorState::Stopped;
    }

    /// Fire-and-forget submission: accepted exactly when the actor is
    /// running and the mailbox has room.  A rejected submission leaves the
    /// mailbox untouched and never fails the process; the caller may retry
    /// (blocking submission) or drop the request.
    pub fn try_submit(&mut self, msg: EventMessage) -> (r: bool)
        requires
            wf_publisher(*old(self)),
        ensures
            wf_publisher(*final(self)),
            final(self).config == old(self).config,
            final(self).state == old(self).state,
            r == (old(self).state == ActorState::Running && queued(*old(self)).len() < old(
                self,
            ).config.mailbox_size),
            r ==> queued(*final(self)) == spec_submit(
                queued(*old(self)),
                old(self).config.mailbox_size as int,
                msg.event@,
            ).0,
            !r ==> queued(*final(self)) == queued(*old(self)),
    {
        if !(matches!(self.state, ActorState::Running)) {
            return false;
        }
        if self.mailbox.len() >= self.config.mailbox_size {
            return false;
        }
        let ghost before = queued(*self);
        let ghost ev = msg.event@;
        self.mailbox.push(msg);
        proof {
            assert(queued(*self) =~~= before.push(ev));
        }
        true
    }

    /// The actor's dequeue-and-serialize step: takes the oldest request and
    /// yields its exact wire form, to be published on the configured
    /// subject.
    pub fn take_wire_message(&mut self) -> (r: Option<Vec<u8>>)
        requires
            wf_publisher(*old(self)),
        ensures
            wf_publisher(*final(self)),
            final(self).config == old(self).config,
            final(self).state == old(self).state,
            match r {
                Some(bytes) => {
                    &&& queued(*old(self)).len() > 0
                    &&& bytes@ == ser_event(queued(*old(self))[0])
                    &&& queued(*final(self)) == queued(*old(self)).skip(1)
                },
                None => {
                    &&& queued(*old(self)).len() == 0
                    &&& queued(*final(self)) == queued(*old(self))
                },
            },
    {
        if self.mailbox.len() == 0 {
            return None;
        }
        let ghost before = queued(*self);
        let msg = self.mailbox.remove(0);
        proof {
            assert(queued(*self) =~~= before.skip(1));
        }
        Some(encode_event(&msg.event))
    }
}

// ------------------------------------------------------------------
// Ordering and backpressure laws of the mailbox.
// ------------------------------------------------------------------
/// Submitting a whole sequence of envelopes in order, starting from `q`.
pub open spec fn spec_submit_all(q: Seq<EventV>, cap: int, es: Seq<EventV>) -> Seq<EventV>
    decreases es.len(),
{
    if es.len() == 0 {
        q
    } else {
        spec_submit_all(spec_submit(q, cap, es[0]).0, cap, es.skip(1))
    }
}

/// While the mailbox has room for them all, submissions are all accepted
/// and line up behind the queue in submission order: for one producer,
/// publish order equals submission order.
pub proof fn lemma_submission_order(q: Seq<EventV>, cap: int, es: Seq<EventV>)
    requires
        q.len() + es.len() <= cap,
    ensures
        spec_submit_all(q, cap, es) == q + es,
    decreases es.len(),
{
    if es.len() == 0 {
        assert(q + es =~= q);
    } else {
        assert(spec_submit(q, cap, es[0]).0 == q.push(es[0]));
        lemma_submission_order(q.push(es[0]), cap, es.skip(1));
        assert(q.push(es[0]) + es.skip(1) =~= q + es);
    }
}

/// Draining the mailbox step by step until it is empty.
pub open spec fn spec_drain_all(q: Seq<EventV>) -> Seq<EventV>
    decreases q.len(),
{
    if q.len() > 0 {
        seq![q[0]] + spec_drain_all(q.skip(1))
    } else {
        Seq::empty()
    }
}

/// Draining a mailbox yields exactly its contents, oldest first.
pub proof fn lemma_drain_all(q: Seq<EventV>)
    ensures
        spec_drain_all(q) == q,
    decreases q.len(),
{
    if q.len() > 0 {
        lemma_drain_all(q.skip(1));
        assert(seq![q[0]] + q.skip(1) =~= q);
    } else {
        assert(spec_drain_all(q) =~= q);
    }
}

/// End to end: envelopes submitted in order to a mailbox with room for them
/// come back out of it in exactly that order — the broker receives them as
/// the producer submitted them.
pub proof fn lemma_fifo(cap: int, es: Seq<EventV>)
    requires
        es.len() <= cap,
    ensures
        spec_drain_all(spec_submit_all(Seq::empty(), cap, es)) == es,
{
    lemma_submission_order(Seq::empty(), cap, es);
    assert(Seq::<EventV>::empty() + es =~= es);
    lemma_drain_all(es);
}

} // verus!
