//! The spectral analysis stage: assembles windows for the transform.
//!
//! The stage takes exactly one window's worth of samples from the ring, in
//! arrival order, and lifts each to a complex value with a zero imaginary
//! part. The transform itself works on floating-point numbers and is applied
//! to the window by the caller.

use vstd::prelude::*;
use crate::ring::RingBuffer;

verus! {

/// A complex sample, as the bit patterns of its real and imaginary parts.
#[derive(Clone, Copy, Debug, PartialEq, Eq, Structural)]
pub struct ComplexSample {
    /// Bit pattern of the real part.
    pub re: u64,
    /// Bit pattern of the imaginary part.
    pub im: u64,
}

/// A real sample as a complex one. The imaginary part is positive zero, whose
/// pattern is all zero bits.
pub open spec fn lift(sample: u64) -> ComplexSample {
    ComplexSample { re: sample, im: 0 }
}

/// A sequence of real samples as complex ones, in the same order.
pub open spec fn lifted(samples: Seq<u64>) -> Seq<ComplexSample> {
    Seq::new(samples.len(), |i: int| lift(samples[i]))
}

/// The window that a poll of the ring yields, if one is complete.
pub open spec fn polled_window(ring: Seq<u64>, window: nat) -> Option<Seq<u64>> {
    if ring.len() >= window {
        Some(ring.take(window as int))
    } else {
        None
    }
}

/// The ring after a poll: a complete window leaves it, anything less stays.
pub open spec fn ring_after_poll(ring: Seq<u64>, window: nat) -> Seq<u64> {
    if ring.len() >= window {
        ring.skip(window as int)
    } else {
        ring
    }
}

/// Lifts each real sample to a complex one with a zero imaginary part.
pub fn real_to_complex(input: &[u64]) -> (output: Vec<ComplexSample>)
    ensures
        output@ == lifted(input@),
{
    let mut output: Vec<ComplexSample> = Vec::new();
    let mut i: usize = 0;
    while i < input.len()
        invariant
            i <= input@.len(),
            output@ == lifted(input@.take(i as int)),
        decreases input@.len() - i,
    {
        output.push(ComplexSample { re: input[i], im: 0 });
        i = i + 1;
        proof {
            assert(output@ =~= lifted(input@.take(i as int)));
        }
    }
    proof {
        assert(input@.take(i as int) =~= input@);
    }
    output
}

/// The analysis stage's configuration: the number of samples in a window.
pub struct AnalysisStage {
    window: usize,
}

impl AnalysisStage {
    /// The number of samples in a window.
    pub closed spec fn spec_window(&self) -> nat {
        self.window as nat
    }

    /// A stage that assembles windows of `window` samples.
    pub fn new(window: usize) -> (stage: AnalysisStage)
        ensures
            stage.spec_window() == window,
    {
        AnalysisStage { window }
    }

    /// The number of samples in a window.
    pub fn window(&self) -> (n: usize)
        ensures
            n == self.spec_window(),
    {
        self.window
    }

    /// One iteration of the stage. If the ring holds a complete window, its
    /// oldest `window` samples leave the ring and are returned, lifted, in
    /// arrival order. Otherwise nothing leaves the ring: a partial window is
    /// never handed out.
    pub fn step(&self, ring: &mut RingBuffer) -> (window: Option<Vec<ComplexSample>>)
        ensures
            final(ring).spec_capacity() == old(ring).spec_capacity(),
            final(ring)@ == ring_after_poll(old(ring)@, self.spec_window()),
            match polled_window(old(ring)@, self.spec_window()) {
                Some(samples) => window is Some && window->Some_0@ == lifted(samples),
                None => window is None,
            },
            old(ring).spec_capacity() < self.spec_window() ==> window is None,
    {
        proof {
            use_type_invariant(&*ring);
        }
        if ring.len() >= self.window {
            let samples = ring.drain_exact(self.window);
            Some(real_to_complex(samples.as_slice()))
        } else {
            None
        }
    }
}

} // verus!
