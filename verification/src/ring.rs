//! The sample ring between the audio input and the audio output.
use ringbuf::traits::{Consumer, Observer, Producer};
use vstd::prelude::*;

verus! {

/// A bounded queue of samples: a `ringbuf::HeapRb`. Samples are held as the
/// bit patterns of single precision numbers.
#[verifier::external_body]
pub struct SampleRing {
    inner: ringbuf::HeapRb<u32>,
}

/// The samples in the ring, oldest first.
pub uninterp spec fn ring_items(ring: SampleRing) -> Seq<u32>;

/// How many samples the ring can hold.
pub uninterp spec fn ring_capacity(ring: SampleRing) -> nat;

impl SampleRing {
    /// Calls `ringbuf::HeapRb::new`: an empty ring with room for `capacity`
    /// samples. It panics on no room at all and on more than can be allocated
    /// at once.
    #[verifier::external_body]
    pub(crate) fn new(capacity: usize) -> (ring: Self)
        requires
            0 < capacity,
            4 * capacity <= isize::MAX,
        ensures
            ring_items(ring) == Seq::<u32>::empty(),
            ring_capacity(ring) == capacity,
    {
        SampleRing { inner: ringbuf::HeapRb::new(capacity) }
    }

    /// Calls `ringbuf::traits::Producer::try_push`: puts `sample` behind the
    /// others, unless the ring is full.
    #[verifier::external_body]
    pub(crate) fn try_push(&mut self, sample: u32) -> (r: Result<(), u32>)
        ensures
            r is Ok <==> ring_items(*old(self)).len() < ring_capacity(*old(self)),
            r matches Err(e) ==> e == sample,
            ring_items(*final(self)) == if ring_items(*old(self)).len() < ring_capacity(
                *old(self),
            ) {
                ring_items(*old(self)).push(sample)
            } else {
                ring_items(*old(self))
            },
            ring_capacity(*final(self)) == ring_capacity(*old(self)),
    {
        self.inner.try_push(sample)
    }

    /// Calls `ringbuf::traits::Consumer::try_pop`: takes the oldest sample out,
    /// if there is one.
    #[verifier::external_body]
    pub(crate) fn try_pop(&mut self) -> (r: Option<u32>)
        ensures
            r == if ring_items(*old(self)).len() > 0 {
                Some(ring_items(*old(self))[0])
            } else {
                None
            },
            ring_items(*final(self)) == if ring_items(*old(self)).len() > 0 {
                ring_items(*old(self)).skip(1)
            } else {
                ring_items(*old(self))
            },
            ring_capacity(*final(self)) == ring_capacity(*old(self)),
    {
        self.inner.try_pop()
    }

    /// Calls `ringbuf::traits::Observer::occupied_len`: the number of samples
    /// in the ring.
    #[verifier::external_body]
    pub(crate) fn occupied_len(&self) -> (n: usize)
        ensures
            n == ring_items(*self).len(),
    {
        self.inner.occupied_len()
    }
}

} // verus!
