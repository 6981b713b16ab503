//! A sequential model of the pipeline and what holds of every run of it.
//!
//! The buffering and analysis stages share one ring. Whatever the two threads
//! do, each of their iterations takes the ring exclusively, so a run is a
//! sequence of iterations. The model replays such a sequence with the same
//! functions that the stages' contracts are stated in.

use vstd::prelude::*;
use crate::analysis::{polled_window, ring_after_poll};
use crate::buffering::{
    deferred_after_event,
    deferred_after_retry,
    retried,
    ring_after_event,
    ring_after_retry,
};
use crate::channel::ChannelEvent;

verus! {

/// What the pipeline holds at a point between two iterations, and what it has
/// emitted so far.
pub struct PipelineState {
    /// The ring's capacity.
    pub capacity: nat,
    /// The number of samples in a window.
    pub window: nat,
    /// The number of refusals after which a retry pass gives up.
    pub retry_limit: nat,
    /// The samples in the ring, oldest first.
    pub ring: Seq<u64>,
    /// The samples that the ring refused and that wait to be offered again.
    pub deferred: Seq<u64>,
    /// The windows handed to the transform, in the order of their emission.
    pub emitted: Seq<Seq<u64>>,
}

/// One iteration of one of the two stages that share the ring.
pub enum Iteration {
    /// The buffering stage ran, and its receive observed this event.
    Buffering(ChannelEvent),
    /// The analysis stage ran.
    Analysis,
}

impl PipelineState {
    /// A pipeline that has received nothing yet.
    pub open spec fn initial(capacity: nat, window: nat, retry_limit: nat) -> PipelineState {
        PipelineState {
            capacity,
            window,
            retry_limit,
            ring: Seq::empty(),
            deferred: Seq::empty(),
            emitted: Seq::empty(),
        }
    }

    /// The ring holds no more than its capacity, and every emitted window is
    /// complete.
    pub open spec fn wf(self) -> bool {
        &&& self.ring.len() <= self.capacity
        &&& forall|i: int|
            0 <= i < self.emitted.len() ==> (#[trigger] self.emitted[i]).len() == self.window
    }

    /// The state after one iteration.
    pub open spec fn next(self, iteration: Iteration) -> PipelineState {
        match iteration {
            Iteration::Buffering(event) => {
                let ring = ring_after_retry(
                    self.ring,
                    self.capacity,
                    self.deferred,
                    self.retry_limit,
                );
                let deferred = deferred_after_retry(
                    self.ring,
                    self.capacity,
                    self.deferred,
                    self.retry_limit,
                );
                PipelineState {
                    ring: ring_after_event(ring, self.capacity, event),
                    deferred: deferred_after_event(ring, self.capacity, deferred, event),
                    ..self
                }
            },
            Iteration::Analysis => PipelineState {
                ring: ring_after_poll(self.ring, self.window),
                emitted: match polled_window(self.ring, self.window) {
                    Some(samples) => self.emitted.push(samples),
                    None => self.emitted,
                },
                ..self
            },
        }
    }

    /// The state after a sequence of iterations.
    pub open spec fn run(self, iterations: Seq<Iteration>) -> PipelineState
        decreases iterations.len(),
    {
        if iterations.len() == 0 {
            self
        } else {
            self.run(iterations.drop_last()).next(iterations.last())
        }
    }

    /// No sample is deferred at any point of the run: the ring was never full
    /// when a sample arrived.
    pub open spec fn never_full(self, iterations: Seq<Iteration>) -> bool {
        forall|n: int|
            0 <= n <= iterations.len() ==> (#[trigger] self.run(
                iterations.take(n),
            )).deferred.len() == 0
    }

    /// The samples that were emitted or are in the ring, oldest first.
    pub open spec fn passed(self) -> Seq<u64> {
        joined(self.emitted) + self.ring
    }
}

/// The samples that the buffering stage received during the iterations, in
/// the order of their arrival.
pub open spec fn arrivals(iterations: Seq<Iteration>) -> Seq<u64>
    decreases iterations.len(),
{
    if iterations.len() == 0 {
        Seq::empty()
    } else {
        let before = arrivals(iterations.drop_last());
        match iterations.last() {
            Iteration::Buffering(ChannelEvent::Received(sample)) => before.push(sample),
            _ => before,
        }
    }
}

/// The windows one after the other, as one sequence of samples.
pub open spec fn joined(windows: Seq<Seq<u64>>) -> Seq<u64>
    decreases windows.len(),
{
    if windows.len() == 0 {
        Seq::empty()
    } else {
        joined(windows.drop_last()) + windows.last()
    }
}

/// Windows of one length, joined, are found again at multiples of that length.
pub proof fn lemma_joined_windows(windows: Seq<Seq<u64>>, window: nat)
    requires
        forall|i: int| 0 <= i < windows.len() ==> (#[trigger] windows[i]).len() == window,
    ensures
        joined(windows).len() == windows.len() * window,
        forall|i: int|
            0 <= i < windows.len() ==> #[trigger] windows[i] == joined(windows).subrange(
                i * window,
                (i + 1) * window,
            ),
    decreases windows.len(),
{
    if windows.len() == 0 {
    } else {
        let front = windows.drop_last();
        let count = front.len() as int;
        lemma_joined_windows(front, window);
        assert(joined(windows).len() == windows.len() * window) by (nonlinear_arith)
            requires
                joined(windows).len() == count * window + window,
                windows.len() == count + 1,
        ;
        assert forall|i: int| 0 <= i < windows.len() implies #[trigger] windows[i] == joined(
            windows,
        ).subrange(i * window, (i + 1) * window) by {
            assert(0 <= i * window && (i + 1) * window == i * window + window && (i + 1) * window
                <= (count + 1) * window) by (nonlinear_arith)
                requires
                    0 <= i <= count,
            ;
            if i < count {
                assert(windows[i] == front[i]);
                assert((i + 1) * window <= count * window) by (nonlinear_arith)
                    requires
                        i + 1 <= count,
                ;
                assert(joined(windows).subrange(i * window, (i + 1) * window) =~= joined(
                    front,
                ).subrange(i * window, (i + 1) * window));
            } else {
                assert(joined(windows).subrange(i * window, (i + 1) * window) =~= windows.last());
            }
        }
    }
}

/// One iteration keeps the state well formed.
pub proof fn lemma_next_wf(state: PipelineState, iteration: Iteration)
    requires
        state.wf(),
    ensures
        state.next(iteration).wf(),
        state.next(iteration).capacity == state.capacity,
        state.next(iteration).window == state.window,
        state.next(iteration).retry_limit == state.retry_limit,
{
}

/// Every run keeps the state well formed and the parameters fixed.
pub proof fn lemma_run_wf(state: PipelineState, iterations: Seq<Iteration>)
    requires
        state.wf(),
    ensures
        state.run(iterations).wf(),
        state.run(iterations).capacity == state.capacity,
        state.run(iterations).window == state.window,
        state.run(iterations).retry_limit == state.retry_limit,
    decreases iterations.len(),
{
    if iterations.len() > 0 {
        lemma_run_wf(state, iterations.drop_last());
        lemma_next_wf(state.run(iterations.drop_last()), iterations.last());
    }
}

/// One iteration neither loses nor invents a sample: what the pipeline holds
/// or has emitted afterwards is what it held or had emitted before, together
/// with the sample that arrived, if one did.
pub proof fn lemma_next_conserves(state: PipelineState, iteration: Iteration)
    requires
        state.wf(),
    ensures
        (state.next(iteration).passed() + state.next(iteration).deferred).to_multiset() == (
        state.passed() + state.deferred + arrivals(seq![iteration])).to_multiset(),
{
    broadcast use vstd::seq_lib::lemma_multiset_commutative;

    let after = state.next(iteration);
    let before = joined(state.emitted);
    let held = state.passed() + state.deferred;
    assert(seq![iteration].drop_last() =~= Seq::<Iteration>::empty());
    assert(arrivals(seq![iteration].drop_last()) =~= Seq::<u64>::empty());
    match iteration {
        Iteration::Buffering(event) => {
            let moved = retried(
                (state.capacity - state.ring.len()) as nat,
                state.deferred.len(),
                state.retry_limit,
            );
            let kept = state.deferred.take(state.deferred.len() - moved);
            let again = state.deferred.skip(state.deferred.len() - moved);
            let ring = state.ring + again.reverse();
            assert(state.deferred =~= kept + again);
            again.lemma_reverse_to_multiset();
            assert((ring + kept).to_multiset() =~= (state.ring + state.deferred).to_multiset());
            assert((before + ring + kept).to_multiset() =~= held.to_multiset()) by {
                assert(before + ring + kept =~= before + (ring + kept));
                assert(held =~= before + (state.ring + state.deferred));
            }
            match event {
                ChannelEvent::Received(sample) => {
                    assert(arrivals(seq![iteration]) =~= seq![sample]);
                    assert(held + seq![sample] =~= held.push(sample));
                    vstd::seq_lib::to_multiset_build(held, sample);
                    if ring.len() < state.capacity {
                        assert(after.passed() + after.deferred =~= (before + ring + kept).insert(
                            (before + ring).len() as int,
                            sample,
                        ));
                        vstd::seq_lib::to_multiset_insert(
                            before + ring + kept,
                            (before + ring).len() as int,
                            sample,
                        );
                    } else {
                        assert(after.passed() + after.deferred =~= (before + ring + kept).push(
                            sample,
                        ));
                        vstd::seq_lib::to_multiset_build(before + ring + kept, sample);
                    }
                },
                _ => {
                    assert(arrivals(seq![iteration]) =~= Seq::<u64>::empty());
                    assert(held + arrivals(seq![iteration]) =~= held);
                    assert(after.passed() + after.deferred =~= before + ring + kept);
                },
            }
        },
        Iteration::Analysis => {
            assert(arrivals(seq![iteration]) =~= Seq::<u64>::empty());
            assert(held + arrivals(seq![iteration]) =~= held);
            lemma_poll_keeps_order(state);
        },
    }
}

/// An iteration of the analysis stage moves samples from the ring to the
/// emitted windows without reordering them.
pub proof fn lemma_poll_keeps_order(state: PipelineState)
    ensures
        state.next(Iteration::Analysis).passed() == state.passed(),
        state.next(Iteration::Analysis).deferred == state.deferred,
{
    let after = state.next(Iteration::Analysis);
    if state.ring.len() >= state.window {
        let samples = state.ring.take(state.window as int);
        assert(after.emitted.drop_last() =~= state.emitted);
        assert(after.emitted.last() == samples);
        assert(samples + state.ring.skip(state.window as int) =~= state.ring);
        assert(after.passed() =~= state.passed());
    }
}

/// The arrivals of a run that is extended by one iteration.
pub proof fn lemma_arrivals_push(iterations: Seq<Iteration>, iteration: Iteration)
    ensures
        arrivals(iterations.push(iteration)) == arrivals(iterations) + arrivals(seq![iteration]),
{
    assert(iterations.push(iteration).drop_last() =~= iterations);
    assert(seq![iteration].drop_last() =~= Seq::<Iteration>::empty());
    assert(arrivals(seq![iteration].drop_last()) =~= Seq::<u64>::empty());
    match iteration {
        Iteration::Buffering(ChannelEvent::Received(sample)) => {
            assert(arrivals(seq![iteration]) =~= seq![sample]);
            assert(arrivals(iterations).push(sample) =~= arrivals(iterations) + seq![sample]);
        },
        _ => {
            assert(arrivals(seq![iteration]) =~= Seq::<u64>::empty());
            assert(arrivals(iterations) + Seq::<u64>::empty() =~= arrivals(iterations));
        },
    }
}

/// No sample is silently dropped. At every point of every run, the samples
/// that have entered the pipeline are exactly those that were emitted, are in
/// the ring, or wait among the deferred samples: the same samples, each as
/// often as it arrived.
pub proof fn lemma_conservation(
    capacity: nat,
    window: nat,
    retry_limit: nat,
    iterations: Seq<Iteration>,
)
    ensures
        ({
            let end = PipelineState::initial(capacity, window, retry_limit).run(iterations);
            &&& (end.passed() + end.deferred).to_multiset() == arrivals(iterations).to_multiset()
            &&& joined(end.emitted).len() + end.ring.len() + end.deferred.len() == arrivals(
                iterations,
            ).len()
        }),
    decreases iterations.len(),
{
    broadcast use vstd::seq_lib::lemma_multiset_commutative;

    let start = PipelineState::initial(capacity, window, retry_limit);
    let end = start.run(iterations);
    if iterations.len() == 0 {
        assert(end.passed() + end.deferred =~= arrivals(iterations));
    } else {
        let front = iterations.drop_last();
        let last = iterations.last();
        let middle = start.run(front);
        lemma_conservation(capacity, window, retry_limit, front);
        lemma_run_wf(start, front);
        lemma_next_conserves(middle, last);
        assert(iterations =~= front.push(last));
        lemma_arrivals_push(front, last);
        assert((middle.passed() + middle.deferred + arrivals(seq![last])).to_multiset() =~= (
        arrivals(front) + arrivals(seq![last])).to_multiset());
    }
    (end.passed() + end.deferred).to_multiset_ensures();
    arrivals(iterations).to_multiset_ensures();
}

/// Backpressure defers instead of dropping: when a sample arrives while the
/// ring is full, the ring is unchanged and the sample joins the deferred
/// samples, behind those already waiting.
pub proof fn lemma_full_ring_defers(state: PipelineState, sample: u64)
    requires
        state.ring.len() == state.capacity,
    ensures
        state.next(Iteration::Buffering(ChannelEvent::Received(sample))).ring == state.ring,
        state.next(Iteration::Buffering(ChannelEvent::Received(sample))).deferred
            == state.deferred.push(sample),
        state.next(Iteration::Buffering(ChannelEvent::Received(sample))).emitted == state.emitted,
{
    let after = state.next(Iteration::Buffering(ChannelEvent::Received(sample)));
    let all = state.deferred.len() as int;
    assert(state.deferred.skip(all).reverse() =~= Seq::<u64>::empty());
    assert(state.deferred.take(all) =~= state.deferred);
    assert(after.ring =~= state.ring);
}

/// Without a buffer-full event the pipeline is a queue: the emitted windows,
/// followed by the ring's contents, are the arrived samples in arrival order.
pub proof fn lemma_never_full_keeps_order(
    capacity: nat,
    window: nat,
    retry_limit: nat,
    iterations: Seq<Iteration>,
)
    requires
        PipelineState::initial(capacity, window, retry_limit).never_full(iterations),
    ensures
        PipelineState::initial(capacity, window, retry_limit).run(iterations).passed() == arrivals(
            iterations,
        ),
    decreases iterations.len(),
{
    let start = PipelineState::initial(capacity, window, retry_limit);
    let end = start.run(iterations);
    if iterations.len() == 0 {
        assert(end.passed() =~= arrivals(iterations));
    } else {
        let front = iterations.drop_last();
        let last = iterations.last();
        let middle = start.run(front);
        assert forall|n: int| 0 <= n <= front.len() implies (#[trigger] start.run(
            front.take(n),
        )).deferred.len() == 0 by {
            assert(front.take(n) =~= iterations.take(n));
        }
        lemma_never_full_keeps_order(capacity, window, retry_limit, front);
        assert(middle.deferred.len() == 0) by {
            assert(front =~= iterations.take(front.len() as int));
        }
        assert(end.deferred.len() == 0) by {
            assert(iterations =~= iterations.take(iterations.len() as int));
        }
        lemma_run_wf(start, front);
        match last {
            Iteration::Buffering(event) => {
                assert(middle.deferred.skip(0).reverse() =~= Seq::<u64>::empty());
                let ring = ring_after_retry(
                    middle.ring,
                    middle.capacity,
                    middle.deferred,
                    middle.retry_limit,
                );
                assert(ring =~= middle.ring);
                match event {
                    ChannelEvent::Received(sample) => {
                        assert(end.ring == middle.ring.push(sample));
                        assert(end.passed() =~= middle.passed().push(sample));
                    },
                    _ => {
                        assert(end.passed() =~= middle.passed());
                    },
                }
            },
            Iteration::Analysis => {
                lemma_poll_keeps_order(middle);
            },
        }
    }
}

/// With windows of at least one sample and no buffer-full event, the
/// pipeline emits the arrived samples window by window, in arrival order: the
/// `i`-th window is the `i`-th run of `window` consecutive arrivals. It never
/// emits more than `k` windows out of `window * k` arrivals, and it has
/// emitted exactly `k` once the ring holds less than a window.
pub proof fn lemma_windows_in_arrival_order(
    capacity: nat,
    window: nat,
    retry_limit: nat,
    iterations: Seq<Iteration>,
    k: nat,
)
    requires
        window >= 1,
        PipelineState::initial(capacity, window, retry_limit).never_full(iterations),
        arrivals(iterations).len() == window * k,
    ensures
        ({
            let end = PipelineState::initial(capacity, window, retry_limit).run(iterations);
            &&& end.emitted.len() <= k
            &&& end.ring.len() < window ==> end.emitted.len() == k
            &&& forall|i: int|
                0 <= i < end.emitted.len() ==> #[trigger] end.emitted[i] == arrivals(
                    iterations,
                ).subrange(i * window, (i + 1) * window)
        }),
{
    let start = PipelineState::initial(capacity, window, retry_limit);
    let end = start.run(iterations);
    let count = end.emitted.len();
    let all = arrivals(iterations);
    lemma_run_wf(start, iterations);
    lemma_never_full_keeps_order(capacity, window, retry_limit, iterations);
    lemma_joined_windows(end.emitted, window);
    assert(count * window + end.ring.len() == window * k);
    assert(count <= k && (end.ring.len() < window ==> count == k)) by (nonlinear_arith)
        requires
            count * window + end.ring.len() == window * k,
            window >= 1,
    ;
    assert forall|i: int| 0 <= i < count implies #[trigger] end.emitted[i] == all.subrange(
        i * window,
        (i + 1) * window,
    ) by {
        assert(0 <= i * window <= (i + 1) * window <= count * window) by (nonlinear_arith)
            requires
                0 <= i < count,
        ;
        assert(all =~= joined(end.emitted) + end.ring);
        assert(all.subrange(i * window, (i + 1) * window) =~= joined(end.emitted).subrange(
            i * window,
            (i + 1) * window,
        ));
    }
}

/// A ring that cannot hold a window never lets one out: with a capacity
/// below the window size nothing is ever emitted.
pub proof fn lemma_small_ring_emits_nothing(
    capacity: nat,
    window: nat,
    retry_limit: nat,
    iterations: Seq<Iteration>,
)
    requires
        capacity < window,
    ensures
        PipelineState::initial(capacity, window, retry_limit).run(iterations).emitted.len() == 0,
    decreases iterations.len(),
{
    let start = PipelineState::initial(capacity, window, retry_limit);
    if iterations.len() > 0 {
        lemma_small_ring_emits_nothing(capacity, window, retry_limit, iterations.drop_last());
        lemma_run_wf(start, iterations.drop_last());
    }
}

/// A partial window is never emitted. Every emitted window holds exactly
/// `window` samples, so the windows emitted never outnumber the complete
/// windows that have arrived; while fewer than `window` samples have arrived,
/// nothing is emitted at all.
pub proof fn lemma_no_partial_window(
    capacity: nat,
    window: nat,
    retry_limit: nat,
    iterations: Seq<Iteration>,
)
    ensures
        ({
            let end = PipelineState::initial(capacity, window, retry_limit).run(iterations);
            &&& forall|i: int|
                0 <= i < end.emitted.len() ==> (#[trigger] end.emitted[i]).len() == window
            &&& end.emitted.len() * window <= arrivals(iterations).len()
            &&& arrivals(iterations).len() < window ==> end.emitted.len() == 0
        }),
{
    let start = PipelineState::initial(capacity, window, retry_limit);
    let end = start.run(iterations);
    let count = end.emitted.len();
    lemma_run_wf(start, iterations);
    lemma_conservation(capacity, window, retry_limit, iterations);
    lemma_joined_windows(end.emitted, window);
    if arrivals(iterations).len() < window {
        assert(count == 0) by (nonlinear_arith)
            requires
                count * window < window,
        ;
    }
}

} // verus!
