//! The buffering stage: bridges the unbounded channel to the bounded ring.
//!
//! Samples the ring refuses are kept in a local list of deferred samples and
//! offered again at the start of each later iteration. Nothing is dropped.

use vstd::prelude::*;
use std::sync::mpsc::Receiver;
use crate::channel::{try_receive, ChannelEvent};
use crate::ring::RingBuffer;
use crate::status::StageExit;

verus! {

/// How many deferred samples one retry pass moves into a ring with `free`
/// empty slots: as many as fit, unless no retry is allowed at all.
pub open spec fn retried(free: nat, deferred: nat, limit: nat) -> nat {
    if limit == 0 {
        0
    } else if free <= deferred {
        free
    } else {
        deferred
    }
}

/// The ring after a retry pass: the most recently deferred samples are
/// appended first.
pub open spec fn ring_after_retry(
    ring: Seq<u64>,
    capacity: nat,
    deferred: Seq<u64>,
    limit: nat,
) -> Seq<u64> {
    let moved = retried((capacity - ring.len()) as nat, deferred.len(), limit);
    ring + deferred.skip(deferred.len() - moved).reverse()
}

/// The deferred samples that a retry pass leaves behind.
pub open spec fn deferred_after_retry(
    ring: Seq<u64>,
    capacity: nat,
    deferred: Seq<u64>,
    limit: nat,
) -> Seq<u64> {
    let moved = retried((capacity - ring.len()) as nat, deferred.len(), limit);
    deferred.take(deferred.len() - moved)
}

/// The ring after a sample is offered to it.
pub open spec fn ring_after_offer(ring: Seq<u64>, capacity: nat, sample: u64) -> Seq<u64> {
    if ring.len() < capacity {
        ring.push(sample)
    } else {
        ring
    }
}

/// The deferred samples after a sample is offered to the ring.
pub open spec fn deferred_after_offer(
    ring: Seq<u64>,
    capacity: nat,
    deferred: Seq<u64>,
    sample: u64,
) -> Seq<u64> {
    if ring.len() < capacity {
        deferred
    } else {
        deferred.push(sample)
    }
}

/// The ring after the stage has reacted to a channel event.
pub open spec fn ring_after_event(ring: Seq<u64>, capacity: nat, event: ChannelEvent) -> Seq<u64> {
    match event {
        ChannelEvent::Received(sample) => ring_after_offer(ring, capacity, sample),
        _ => ring,
    }
}

/// The deferred samples after the stage has reacted to a channel event.
pub open spec fn deferred_after_event(
    ring: Seq<u64>,
    capacity: nat,
    deferred: Seq<u64>,
    event: ChannelEvent,
) -> Seq<u64> {
    match event {
        ChannelEvent::Received(sample) => deferred_after_offer(ring, capacity, deferred, sample),
        _ => deferred,
    }
}

/// Whether, and why, the stage stops on a channel event.
pub open spec fn exit_on(event: ChannelEvent) -> Option<StageExit> {
    match event {
        ChannelEvent::Disconnected => Some(StageExit::Disconnected),
        _ => None,
    }
}

/// The buffering stage's own state: the deferred samples and the retry limit.
pub struct BufferingStage {
    deferred: Vec<u64>,
    retry_limit: usize,
}

impl BufferingStage {
    /// The deferred samples, in the order in which the ring refused them.
    pub closed spec fn deferred(&self) -> Seq<u64> {
        self.deferred@
    }

    /// The number of refusals after which one retry pass gives up.
    pub closed spec fn spec_retry_limit(&self) -> nat {
        self.retry_limit as nat
    }

    /// A stage with nothing deferred.
    pub fn new(retry_limit: usize) -> (stage: BufferingStage)
        ensures
            stage.deferred() == Seq::<u64>::empty(),
            stage.spec_retry_limit() == retry_limit,
    {
        BufferingStage { deferred: Vec::new(), retry_limit }
    }

    /// The number of refusals after which one retry pass gives up.
    pub fn retry_limit(&self) -> (limit: usize)
        ensures
            limit == self.spec_retry_limit(),
    {
        self.retry_limit
    }

    /// The number of samples waiting to be offered again.
    pub fn deferred_len(&self) -> (n: usize)
        ensures
            n == self.deferred().len(),
    {
        self.deferred.len()
    }

    /// A copy of the deferred samples, in the order in which the ring refused
    /// them.
    pub fn deferred_samples(&self) -> (samples: Vec<u64>)
        ensures
            samples@ == self.deferred(),
    {
        self.deferred.clone()
    }

    /// Offers deferred samples to the ring again, most recently deferred
    /// first, until none is left or the ring has refused `retry_limit` times.
    /// A refused sample stays deferred.
    pub fn retry_deferred(&mut self, ring: &mut RingBuffer)
        ensures
            final(ring).spec_capacity() == old(ring).spec_capacity(),
            final(self).spec_retry_limit() == old(self).spec_retry_limit(),
            final(ring)@ == ring_after_retry(
                old(ring)@,
                old(ring).spec_capacity(),
                old(self).deferred(),
                old(self).spec_retry_limit(),
            ),
            final(self).deferred() == deferred_after_retry(
                old(ring)@,
                old(ring).spec_capacity(),
                old(self).deferred(),
                old(self).spec_retry_limit(),
            ),
    {
        let ghost ring0 = ring@;
        let ghost deferred0 = self.deferred@;
        let ghost capacity = ring.spec_capacity();
        let mut refusals: usize = 0;
        proof {
            use_type_invariant(&*ring);
            assert(deferred0.take(deferred0.len() as int) =~= deferred0);
            assert(ring0 + deferred0.skip(deferred0.len() as int).reverse() =~= ring0);
        }
        while self.deferred.len() > 0 && refusals < self.retry_limit
            invariant
                ring.spec_capacity() == capacity,
                ring.bounded(),
                self.retry_limit == old(self).retry_limit,
                self.deferred@.len() <= deferred0.len(),
                self.deferred@ == deferred0.take(self.deferred@.len() as int),
                ring@ == ring0 + deferred0.skip(self.deferred@.len() as int).reverse(),
                refusals <= self.retry_limit,
                refusals > 0 ==> ring@.len() == capacity && self.deferred@.len() > 0,
                self.retry_limit == 0 ==> self.deferred@.len() == deferred0.len(),
            decreases self.deferred@.len() + (self.retry_limit - refusals),
        {
            let ghost before = self.deferred@;
            let sample = self.deferred.pop().unwrap();
            match ring.try_push(sample) {
                Ok(()) => {
                    proof {
                        let n = self.deferred@.len() as int;
                        assert(self.deferred@ =~= deferred0.take(n));
                        assert(deferred0.skip(n).reverse() =~= deferred0.skip(n + 1).reverse().push(
                            sample,
                        ));
                    }
                },
                Err(refused) => {
                    self.deferred.push(refused);
                    refusals = refusals + 1;
                    proof {
                        assert(self.deferred@ =~= before);
                    }
                },
            }
        }
        proof {
            let left = self.deferred@.len();
            let moved = (deferred0.len() - left) as nat;
            assert(ring@.len() == ring0.len() + moved);
            assert(moved == retried(
                (capacity - ring0.len()) as nat,
                deferred0.len(),
                old(self).retry_limit as nat,
            ));
        }
    }

    /// Offers a newly received sample to the ring. If the ring is full the
    /// sample is deferred, behind the samples deferred earlier.
    pub fn offer(&mut self, ring: &mut RingBuffer, sample: u64)
        ensures
            final(ring).spec_capacity() == old(ring).spec_capacity(),
            final(self).spec_retry_limit() == old(self).spec_retry_limit(),
            final(ring)@ == ring_after_offer(old(ring)@, old(ring).spec_capacity(), sample),
            final(self).deferred() == deferred_after_offer(
                old(ring)@,
                old(ring).spec_capacity(),
                old(self).deferred(),
                sample,
            ),
    {
        proof {
            use_type_invariant(&*ring);
        }
        if let Err(refused) = ring.try_push(sample) {
            self.deferred.push(refused);
        }
    }

    /// Whether, and why, the stage stops on a channel event: only a
    /// disconnected channel ends it.
    pub fn exit_for(event: ChannelEvent) -> (exit: Option<StageExit>)
        ensures
            exit == exit_on(event),
    {
        match event {
            ChannelEvent::Disconnected => Some(StageExit::Disconnected),
            _ => None,
        }
    }

    /// Reacts to what the channel reported: a received sample is offered to
    /// the ring, an empty channel changes nothing, and a disconnected channel
    /// ends the stage. The result is the reason to stop, if there is one.
    pub fn react(&mut self, ring: &mut RingBuffer, event: ChannelEvent) -> (exit: Option<StageExit>)
        ensures
            exit == exit_on(event),
            final(ring).spec_capacity() == old(ring).spec_capacity(),
            final(self).spec_retry_limit() == old(self).spec_retry_limit(),
            final(ring)@ == ring_after_event(old(ring)@, old(ring).spec_capacity(), event),
            final(self).deferred() == deferred_after_event(
                old(ring)@,
                old(ring).spec_capacity(),
                old(self).deferred(),
                event,
            ),
    {
        if let ChannelEvent::Received(sample) = event {
            self.offer(ring, sample);
        }
        Self::exit_for(event)
    }

    /// One iteration of the stage: a retry pass over the deferred samples,
    /// then one non-blocking receive and the reaction to it. The event that
    /// the receive observed is returned; the stage stops when
    /// [`exit_on`] gives a reason for it.
    pub fn step(&mut self, ring: &mut RingBuffer, rx: &Receiver<u64>) -> (event: ChannelEvent)
        ensures
            final(ring).spec_capacity() == old(ring).spec_capacity(),
            final(self).spec_retry_limit() == old(self).spec_retry_limit(),
            final(ring)@ == ring_after_event(
                ring_after_retry(
                    old(ring)@,
                    old(ring).spec_capacity(),
                    old(self).deferred(),
                    old(self).spec_retry_limit(),
                ),
                old(ring).spec_capacity(),
                event,
            ),
            final(self).deferred() == deferred_after_event(
                ring_after_retry(
                    old(ring)@,
                    old(ring).spec_capacity(),
                    old(self).deferred(),
                    old(self).spec_retry_limit(),
                ),
                old(ring).spec_capacity(),
                deferred_after_retry(
                    old(ring)@,
                    old(ring).spec_capacity(),
                    old(self).deferred(),
                    old(self).spec_retry_limit(),
                ),
                event,
            ),
    {
        self.retry_deferred(ring);
        let event = try_receive(rx);
        self.react(ring, event);
        event
    }
}

} // verus!
