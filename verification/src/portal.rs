//! Serialized portal-message delivery and the control-plane loop step.
//!
//! Portal messages pass through a single-slot buffer: the sender blocks
//! until the consumer has taken the previous message, so the consumer
//! observes messages exactly in the order the socket produced them. The
//! ghost histories make that ordering a proved invariant.

use vstd::prelude::*;

verus! {

/// A capacity-one message buffer with ghost production and consumption
/// histories.
pub struct PortalQueue<T> {
    pub slot: Option<T>,
    pub produced: Ghost<Seq<T>>,
    pub consumed: Ghost<Seq<T>>,
}

impl<T> PortalQueue<T> {
    /// Everything produced is what was consumed, followed by what still
    /// sits in the slot.
    pub open spec fn wf(self) -> bool {
        self.produced@ == self.consumed@ + (match self.slot {
            Some(m) => seq![m],
            None => Seq::<T>::empty(),
        })
    }

    pub fn new() -> (r: Self)
        ensures
            r.wf(),
            r.slot is None,
            r.produced@ == Seq::<T>::empty(),
            r.consumed@ == Seq::<T>::empty(),
    {
        PortalQueue { slot: None, produced: Ghost(Seq::empty()), consumed: Ghost(Seq::empty()) }
    }

    /// Produces a message. The capacity-one discipline means a sender may
    /// only send once the slot is free; a real sender blocks until then.
    pub fn send(&mut self, m: T)
        requires
            old(self).wf(),
            old(self).slot is None,
        ensures
            final(self).wf(),
            final(self).slot == Some(m),
            final(self).produced@ == old(self).produced@.push(m),
            final(self).consumed@ == old(self).consumed@,
    {
        proof {
            self.produced@ = self.produced@.push(m);
        }
        self.slot = Some(m);
        proof {
            assert(self.produced@ =~= self.consumed@ + seq![m]);
        }
    }

    /// Consumes the pending message, if any. The message received is
    /// exactly the next unconsumed message of the production history: the
    /// consumer observes messages in production order.
    pub fn recv(&mut self) -> (r: Option<T>)
        requires
            old(self).wf(),
        ensures
            final(self).wf(),
            r == old(self).slot,
            final(self).slot is None,
            final(self).produced@ == old(self).produced@,
            match r {
                Some(m) => {
                    &&& final(self).consumed@ == old(self).consumed@.push(m)
                    &&& m == old(self).produced@[old(self).consumed@.len() as int]
                },
                None => final(self).consumed@ == old(self).consumed@,
            },
    {
        let r = self.slot.take();
        proof {
            if r is Some {
                self.consumed@ = self.consumed@.push(r->0);
                assert(self.produced@ =~= self.consumed@);
            }
        }
        r
    }

    /// The consumed history is always a prefix of the produced history:
    /// serialization through the capacity-one buffer preserves order.
    pub proof fn lemma_consumed_is_prefix(self)
        requires
            self.wf(),
        ensures
            self.consumed@.is_prefix_of(self.produced@),
    {
        assert(self.consumed@ =~= self.produced@.take(self.consumed@.len() as int));
    }
}

/// What the control-plane loop observed in one iteration.
pub enum LoopEvent<T> {
    /// A portal message was delivered.
    Message(T),
    /// A portal message failed to parse; the reply is unusable.
    MessageError,
    /// The statistics interval elapsed.
    Tick,
    /// The message channel closed.
    Closed,
}

/// What the control-plane loop does next.
#[derive(Clone, Copy, PartialEq, Eq, Structural, Debug)]
pub enum LoopAction {
    /// Hand the message to the orchestrator.
    Dispatch,
    /// Log and skip an unusable message.
    Ignore,
    /// Emit periodic statistics.
    EmitStats,
    /// Leave the loop.
    Exit,
}

/// One step of the control-plane loop: messages are dispatched in arrival
/// order, unparsable messages are skipped, the timer emits statistics, and
/// channel closure ends the loop.
pub fn control_loop_step<T>(ev: &LoopEvent<T>) -> (r: LoopAction)
    ensures
        r == (match ev {
            LoopEvent::Message(_) => LoopAction::Dispatch,
            LoopEvent::MessageError => LoopAction::Ignore,
            LoopEvent::Tick => LoopAction::EmitStats,
            LoopEvent::Closed => LoopAction::Exit,
        }),
{
    match ev {
        LoopEvent::Message(_) => LoopAction::Dispatch,
        LoopEvent::MessageError => LoopAction::Ignore,
        LoopEvent::Tick => LoopAction::EmitStats,
        LoopEvent::Closed => LoopAction::Exit,
    }
}

} // verus!
