//! The shared half of a running pipeline: the ring and the two stages that
//! work on it, together with a record of what they have done.
//!
//! The buffering and the analysis thread each take the pipeline exclusively
//! for one iteration at a time. The pipeline keeps, as ghost state, the
//! sequence of iterations it has gone through and the windows it has handed
//! out, and it is at every moment in the state that the model reaches by
//! replaying that sequence. What the model proves of every run is thereby
//! true of the running pipeline.

use vstd::prelude::*;
use std::sync::mpsc::Receiver;
use crate::analysis::{lifted, polled_window, AnalysisStage, ComplexSample};
use crate::buffering::BufferingStage;
use crate::channel::ChannelEvent;
use crate::config::PipelineConfig;
use crate::model::{
    arrivals,
    joined,
    lemma_conservation,
    lemma_no_partial_window,
    lemma_windows_in_arrival_order,
    Iteration,
    PipelineState,
};
use crate::ring::{RingBuffer, RingError};

verus! {

/// The ring, the deferred samples and the window size of one pipeline.
pub struct Pipeline {
    ring: RingBuffer,
    buffering: BufferingStage,
    analysis: AnalysisStage,
    history: Ghost<Seq<Iteration>>,
    emitted: Ghost<Seq<Seq<u64>>>,
}

impl Pipeline {
    /// What the pipeline holds now and what it has emitted so far.
    pub closed spec fn state(&self) -> PipelineState {
        PipelineState {
            capacity: self.ring.spec_capacity(),
            window: self.analysis.spec_window(),
            retry_limit: self.buffering.spec_retry_limit(),
            ring: self.ring@,
            deferred: self.buffering.deferred(),
            emitted: self.emitted@,
        }
    }

    /// The iterations that the pipeline has gone through, oldest first.
    pub closed spec fn history(&self) -> Seq<Iteration> {
        self.history@
    }

    /// The state in which the pipeline was made.
    pub open spec fn start(&self) -> PipelineState {
        PipelineState::initial(
            self.state().capacity,
            self.state().window,
            self.state().retry_limit,
        )
    }

    /// The pipeline is where the model gets by replaying its history. This
    /// holds of a new pipeline, and every iteration keeps it.
    pub open spec fn wf(&self) -> bool {
        self.state() == self.start().run(self.history())
    }

    /// Makes a pipeline that has received nothing, with the ring capacity,
    /// window size and retry limit of `config`. It fails exactly when the
    /// ring cannot be made.
    pub fn new(config: &PipelineConfig) -> (r: Result<Pipeline, RingError>)
        ensures
            config.spec_capacity() == 0 ==> r is Err && r->Err_0 == RingError::ZeroCapacity,
            config.spec_capacity() > 0 ==> r is Ok || (r is Err && r->Err_0
                == RingError::OutOfMemory),
            r matches Ok(pipeline) ==> pipeline.wf() && pipeline.history().len() == 0
                && pipeline.state() == PipelineState::initial(
                config.spec_capacity() as nat,
                config.spec_window() as nat,
                config.spec_retry_limit() as nat,
            ),
    {
        match RingBuffer::new(config.capacity()) {
            Ok(ring) => Ok(
                Pipeline {
                    ring,
                    buffering: BufferingStage::new(config.retry_limit()),
                    analysis: AnalysisStage::new(config.window()),
                    history: Ghost(Seq::empty()),
                    emitted: Ghost(Seq::empty()),
                },
            ),
            Err(e) => Err(e),
        }
    }

    /// The number of samples in the ring.
    pub fn buffered(&self) -> (n: usize)
        ensures
            n == self.state().ring.len(),
    {
        self.ring.len()
    }

    /// The number of samples that wait to be offered to the ring again.
    pub fn deferred(&self) -> (n: usize)
        ensures
            n == self.state().deferred.len(),
    {
        self.buffering.deferred_len()
    }

    /// One iteration of the buffering stage: a retry pass, one non-blocking
    /// receive from `rx`, and the reaction to the event it observed, which is
    /// returned.
    pub fn buffer(&mut self, rx: &Receiver<u64>) -> (event: ChannelEvent)
        ensures
            old(self).wf() ==> final(self).wf(),
            final(self).history() == old(self).history().push(Iteration::Buffering(event)),
            final(self).state() == old(self).state().next(Iteration::Buffering(event)),
    {
        let event = self.buffering.step(&mut self.ring, rx);
        proof {
            let iteration = Iteration::Buffering(event);
            self.history@ = self.history@.push(iteration);
            assert(self.history@.drop_last() =~= old(self).history@);
        }
        event
    }

    /// One iteration of the analysis stage: if the ring holds a complete
    /// window, the window leaves the ring and is returned, lifted to complex
    /// samples; otherwise nothing changes.
    pub fn analyse(&mut self) -> (window: Option<Vec<ComplexSample>>)
        ensures
            old(self).wf() ==> final(self).wf(),
            final(self).history() == old(self).history().push(Iteration::Analysis),
            final(self).state() == old(self).state().next(Iteration::Analysis),
            match polled_window(old(self).state().ring, old(self).state().window) {
                Some(samples) => window is Some && window->Some_0@ == lifted(samples),
                None => window is None,
            },
    {
        let ghost polled = polled_window(self.ring@, self.analysis.spec_window());
        let window = self.analysis.step(&mut self.ring);
        proof {
            self.history@ = self.history@.push(Iteration::Analysis);
            assert(self.history@.drop_last() =~= old(self).history@);
            if let Some(samples) = polled {
                self.emitted@ = self.emitted@.push(samples);
            }
        }
        window
    }

    /// Nothing that entered the pipeline was dropped: the samples received so
    /// far are those emitted, those in the ring and those deferred, each as
    /// often as it arrived.
    pub proof fn lemma_nothing_dropped(&self)
        requires
            self.wf(),
        ensures
            (self.state().passed() + self.state().deferred).to_multiset() == arrivals(
                self.history(),
            ).to_multiset(),
            joined(self.state().emitted).len() + self.state().ring.len()
                + self.state().deferred.len() == arrivals(self.history()).len(),
    {
        lemma_conservation(
            self.state().capacity,
            self.state().window,
            self.state().retry_limit,
            self.history(),
        );
    }

    /// Only complete windows were emitted, and no more of them than have
    /// arrived.
    pub proof fn lemma_only_whole_windows(&self)
        requires
            self.wf(),
        ensures
            forall|i: int|
                0 <= i < self.state().emitted.len() ==> (#[trigger] self.state().emitted[i]).len()
                    == self.state().window,
            self.state().emitted.len() * self.state().window <= arrivals(self.history()).len(),
            arrivals(self.history()).len() < self.state().window ==> self.state().emitted.len()
                == 0,
    {
        lemma_no_partial_window(
            self.state().capacity,
            self.state().window,
            self.state().retry_limit,
            self.history(),
        );
    }

    /// If the ring was never full when a sample arrived, and `window * k`
    /// samples have arrived, then the windows emitted so far are the first
    /// runs of `window` consecutive arrivals, in arrival order; there are at
    /// most `k` of them, and exactly `k` once the ring holds less than a
    /// window.
    pub proof fn lemma_windows_follow_arrivals(&self, k: nat)
        requires
            self.wf(),
            self.state().window >= 1,
            self.start().never_full(self.history()),
            arrivals(self.history()).len() == self.state().window * k,
        ensures
            self.state().emitted.len() <= k,
            self.state().ring.len() < self.state().window ==> self.state().emitted.len() == k,
            forall|i: int|
                0 <= i < self.state().emitted.len() ==> #[trigger] self.state().emitted[i]
                    == arrivals(self.history()).subrange(
                    i * self.state().window,
                    (i + 1) * self.state().window,
                ),
    {
        lemma_windows_in_arrival_order(
            self.state().capacity,
            self.state().window,
            self.state().retry_limit,
            self.history(),
            k,
        );
    }
}

} // verus!
