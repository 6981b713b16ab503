//! Bounded FIFO ring buffer of sample bit patterns.
//!
//! The storage is a `ringbuf::HeapRb`; this module states what its operations
//! do to the buffered sequence and verifies the buffer's own interface against
//! those statements.

use vstd::prelude::*;
use ringbuf::Rb;
use std::collections::TryReserveError;

verus! {

/// Heap storage of the ring: a `ringbuf::HeapRb` of 64-bit items, owned whole
/// (never split into a producer and a consumer half).
#[verifier::external_body]
pub struct HeapRing {
    inner: ringbuf::HeapRb<u64>,
}

/// The items a ring holds, oldest first.
pub uninterp spec fn ring_items(ring: HeapRing) -> Seq<u64>;

/// The number of slots a ring was made with.
pub uninterp spec fn ring_capacity(ring: HeapRing) -> nat;

/// `HeapRb::try_new`: a fresh ring is empty and has the capacity asked for;
/// the allocator may refuse. A capacity of zero makes `try_new` panic and is
/// excluded.
#[verifier::external_body]
fn ring_try_new(capacity: usize) -> (r: Result<HeapRing, TryReserveError>)
    requires
        capacity > 0,
    ensures
        r matches Ok(ring) ==> ring_items(ring) == Seq::<u64>::empty() && ring_capacity(ring)
            == capacity,
{
    match ringbuf::HeapRb::try_new(capacity) {
        Ok(inner) => Ok(HeapRing { inner }),
        Err(e) => Err(e),
    }
}

/// `Rb::capacity`: the constant number of slots.
#[verifier::external_body]
fn ring_slots(ring: &HeapRing) -> (n: usize)
    ensures
        n == ring_capacity(*ring),
{
    ring.inner.capacity()
}

/// `Rb::len`: the number of items held.
#[verifier::external_body]
fn ring_len(ring: &HeapRing) -> (n: usize)
    ensures
        n == ring_items(*ring).len(),
{
    ring.inner.len()
}

/// `Rb::push`: appends the item behind the newest one while a slot is free;
/// with every slot taken it changes nothing and hands the item back. It does
/// not panic.
#[verifier::external_body]
fn ring_push(ring: &mut HeapRing, item: u64) -> (r: Result<(), u64>)
    ensures
        ring_capacity(*final(ring)) == ring_capacity(*old(ring)),
        ring_items(*old(ring)).len() < ring_capacity(*old(ring)) ==> r is Ok
            && ring_items(*final(ring)) == ring_items(*old(ring)).push(item),
        ring_items(*old(ring)).len() == ring_capacity(*old(ring)) ==> r is Err && r->Err_0 == item
            && ring_items(*final(ring)) == ring_items(*old(ring)),
    no_unwind
{
    ring.inner.push(item)
}

/// `Rb::pop_slice`: removes as many of the oldest items as `out` is long and
/// writes them, in order, over the whole of `out`. It panics when `out` is
/// longer than the ring's contents, and only then; that is excluded.
#[verifier::external_body]
fn ring_pop_slice(ring: &mut HeapRing, out: &mut Vec<u64>)
    requires
        old(out)@.len() <= ring_items(*old(ring)).len(),
    ensures
        final(out)@ == ring_items(*old(ring)).take(old(out)@.len() as int),
        ring_items(*final(ring)) == ring_items(*old(ring)).skip(old(out)@.len() as int),
        ring_capacity(*final(ring)) == ring_capacity(*old(ring)),
    no_unwind
{
    ring.inner.pop_slice(out.as_mut_slice())
}

/// Why a ring buffer could not be made.
#[derive(Clone, Copy, Debug, PartialEq, Eq, Structural)]
pub enum RingError {
    /// A ring needs at least one slot.
    ZeroCapacity,
    /// The allocator could not provide the storage.
    OutOfMemory,
}

/// A fixed-capacity FIFO buffer of samples.
///
/// Its view is the sequence of buffered samples, oldest first. The capacity is
/// fixed when the buffer is made; the buffer never grows and never blocks.
pub struct RingBuffer {
    store: HeapRing,
}

impl View for RingBuffer {
    type V = Seq<u64>;

    closed spec fn view(&self) -> Seq<u64> {
        ring_items(self.store)
    }
}

impl RingBuffer {
    /// The fixed number of slots.
    pub closed spec fn spec_capacity(&self) -> nat {
        ring_capacity(self.store)
    }

    /// Holds of every buffer: at least one slot, and never more samples than
    /// slots.
    #[verifier::type_invariant]
    pub open spec fn bounded(&self) -> bool {
        0 < self.spec_capacity() && self@.len() <= self.spec_capacity()
    }

    /// Makes an empty buffer with `capacity` slots.
    ///
    /// A capacity of zero is refused. Otherwise the only failure is the
    /// allocator's.
    pub fn new(capacity: usize) -> (r: Result<RingBuffer, RingError>)
        ensures
            capacity == 0 ==> r is Err && r->Err_0 == RingError::ZeroCapacity,
            capacity > 0 ==> r is Ok || (r is Err && r->Err_0 == RingError::OutOfMemory),
            r matches Ok(ring) ==> ring@ == Seq::<u64>::empty() && ring.spec_capacity()
                == capacity,
    {
        if capacity == 0 {
            return Err(RingError::ZeroCapacity);
        }
        match ring_try_new(capacity) {
            Ok(store) => Ok(RingBuffer { store }),
            Err(_) => Err(RingError::OutOfMemory),
        }
    }

    /// The fixed number of slots.
    pub fn capacity(&self) -> (n: usize)
        ensures
            n == self.spec_capacity(),
            n > 0,
    {
        proof {
            use_type_invariant(self);
        }
        ring_slots(&self.store)
    }

    /// The number of samples currently held.
    pub fn len(&self) -> (n: usize)
        ensures
            n == self@.len(),
            n <= self.spec_capacity(),
    {
        proof {
            use_type_invariant(self);
        }
        ring_len(&self.store)
    }

    /// Appends `sample` if a slot is free; otherwise leaves the buffer as it is
    /// and hands the sample back.
    pub fn try_push(&mut self, sample: u64) -> (r: Result<(), u64>)
        ensures
            final(self).spec_capacity() == old(self).spec_capacity(),
            r is Ok <==> old(self)@.len() < old(self).spec_capacity(),
            r is Ok ==> final(self)@ == old(self)@.push(sample),
            r is Err ==> r->Err_0 == sample && final(self)@ == old(self)@,
    {
        proof {
            use_type_invariant(&*self);
        }
        ring_push(&mut self.store, sample)
    }

    /// Removes the `n` oldest samples and returns them, oldest first.
    ///
    /// The caller confirms beforehand that `n` samples are held.
    pub fn drain_exact(&mut self, n: usize) -> (window: Vec<u64>)
        requires
            n <= old(self)@.len(),
        ensures
            window@ == old(self)@.take(n as int),
            final(self)@ == old(self)@.skip(n as int),
            final(self)@.len() == old(self)@.len() - n,
            final(self).spec_capacity() == old(self).spec_capacity(),
    {
        proof {
            use_type_invariant(&*self);
        }
        let mut window: Vec<u64> = Vec::new();
        let mut i: usize = 0;
        while i < n
            invariant
                i <= n,
                window@.len() == i,
            decreases n - i,
        {
            window.push(0);
            i = i + 1;
        }
        ring_pop_slice(&mut self.store, &mut window);
        window
    }
}

} // verus!
