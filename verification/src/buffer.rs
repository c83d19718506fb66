//! The agent's bounded sample buffer.
//!
//! Samples wait here, oldest first, until the delivery pipeline drains them.
//! The buffer never holds more than its capacity: a push into a full buffer
//! evicts from the front, and a requeue after a failed delivery re-admits
//! only as many samples as still fit.

use vstd::prelude::*;

verus! {

/// Number of samples the agent keeps while the collector is unreachable.
pub const MAX_BUFFER_SIZE: usize = 120;

/// The number of leading samples that must leave a buffer of `len` samples
/// so that one more fits under `capacity`.
pub open spec fn overflow_of(len: nat, capacity: nat) -> nat {
    if len >= capacity {
        (len - capacity + 1) as nat
    } else {
        0
    }
}

/// The contents after pushing `sample` onto `items` under `capacity`.
pub open spec fn pushed<T>(items: Seq<T>, capacity: nat, sample: T) -> Seq<T> {
    items.skip(overflow_of(items.len(), capacity) as int).push(sample)
}

/// The contents after pushing every sample of `samples`, in order.
pub open spec fn pushed_all<T>(items: Seq<T>, capacity: nat, samples: Seq<T>) -> Seq<T>
    decreases samples.len(),
{
    if samples.len() == 0 {
        items
    } else {
        pushed(pushed_all(items, capacity, samples.drop_last()), capacity, samples.last())
    }
}

/// The number of samples of a failed batch of `batch_len` samples that fit
/// back into a buffer holding `len` samples.
pub open spec fn readmitted(len: nat, capacity: nat, batch_len: nat) -> nat {
    let room = if capacity >= len {
        (capacity - len) as nat
    } else {
        0
    };
    if batch_len <= room {
        batch_len
    } else {
        room
    }
}

/// The contents after requeueing `batch` ahead of `items` under `capacity`.
pub open spec fn requeued<T>(items: Seq<T>, capacity: nat, batch: Seq<T>) -> Seq<T> {
    batch.take(readmitted(items.len(), capacity, batch.len()) as int) + items
}

/// The eviction count `count` after `more` further evictions. The count
/// stops at the greatest number it can hold.
pub open spec fn counted(count: u64, more: nat) -> u64 {
    if count + more > u64::MAX {
        u64::MAX
    } else {
        (count + more) as u64
    }
}

/// A bounded, ordered sequence of samples, oldest first.
pub struct SampleBuffer<T> {
    items: Vec<T>,
    capacity: usize,
    evicted: u64,
}

impl<T> View for SampleBuffer<T> {
    type V = Seq<T>;

    closed spec fn view(&self) -> Seq<T> {
        self.items@
    }
}

impl<T> SampleBuffer<T> {
    /// The most samples the buffer ever holds.
    pub closed spec fn spec_capacity(&self) -> nat {
        self.capacity as nat
    }

    /// The number of samples that pushes have evicted so far.
    pub closed spec fn spec_evicted(&self) -> u64 {
        self.evicted
    }

    /// The buffer's invariant: a positive capacity that the contents respect.
    pub closed spec fn wf(&self) -> bool {
        &&& self.capacity >= 1
        &&& self.items@.len() <= self.capacity
    }

    /// What `wf` says, over the view.
    pub proof fn lemma_wf_bounds(&self)
        ensures
            self.wf() <==> (self.spec_capacity() >= 1 && self@.len() <= self.spec_capacity()),
            self.spec_capacity() <= usize::MAX,
    {
    }

    /// An empty buffer of the usual capacity.
    pub fn new() -> (buffer: Self)
        ensures
            buffer.wf(),
            buffer@ == Seq::<T>::empty(),
            buffer.spec_capacity() == MAX_BUFFER_SIZE,
            buffer.spec_evicted() == 0,
    {
        SampleBuffer { items: Vec::new(), capacity: MAX_BUFFER_SIZE, evicted: 0 }
    }

    /// An empty buffer that holds at most `capacity` samples.
    pub fn with_capacity(capacity: usize) -> (buffer: Self)
        requires
            capacity >= 1,
        ensures
            buffer.wf(),
            buffer@ == Seq::<T>::empty(),
            buffer.spec_capacity() == capacity,
            buffer.spec_evicted() == 0,
    {
        SampleBuffer { items: Vec::new(), capacity, evicted: 0 }
    }

    pub fn capacity(&self) -> (capacity: usize)
        ensures
            capacity == self.spec_capacity(),
    {
        self.capacity
    }

    /// The number of samples that pushes have evicted since the buffer was
    /// made.
    pub fn evicted(&self) -> (evicted: u64)
        ensures
            evicted == self.spec_evicted(),
    {
        self.evicted
    }

    pub fn len(&self) -> (len: usize)
        ensures
            len == self@.len(),
    {
        self.items.len()
    }

    pub fn is_empty(&self) -> (empty: bool)
        ensures
            empty == (self@.len() == 0),
    {
        self.items.len() == 0
    }

    /// Appends `sample`, evicting from the front when the buffer is full.
    /// Returns the number of samples evicted.
    pub fn push(&mut self, sample: T) -> (dropped: usize)
        requires
            old(self).wf(),
        ensures
            final(self).wf(),
            final(self).spec_capacity() == old(self).spec_capacity(),
            final(self)@ == pushed(old(self)@, old(self).spec_capacity(), sample),
            dropped == overflow_of(old(self)@.len(), old(self).spec_capacity()),
            old(self)@.len() < old(self).spec_capacity() ==> dropped == 0,
            old(self)@.len() == old(self).spec_capacity() ==> dropped == 1,
            final(self).spec_evicted() == counted(old(self).spec_evicted(), dropped as nat),
    {
        let mut dropped: usize = 0;
        if self.items.len() >= self.capacity {
            self.items.remove(0);
            dropped = 1;
            if self.evicted < u64::MAX {
                self.evicted = self.evicted + 1;
            }
        }
        self.items.push(sample);
        proof {
            assert(final(self).items@ =~= pushed(old(self)@, old(self).spec_capacity(), sample));
        }
        dropped
    }

    /// Hands out every buffered sample, oldest first, and leaves the buffer
    /// empty.
    pub fn drain(&mut self) -> (samples: Vec<T>)
        requires
            old(self).wf(),
        ensures
            final(self).wf(),
            final(self).spec_capacity() == old(self).spec_capacity(),
            final(self).spec_evicted() == old(self).spec_evicted(),
            final(self)@ == Seq::<T>::empty(),
            samples@ == old(self)@,
    {
        let mut samples: Vec<T> = Vec::new();
        core::mem::swap(&mut self.items, &mut samples);
        samples
    }

    /// Puts the samples of a failed batch back in front of whatever was
    /// pushed since, as far as they fit. Returns how many did not fit and are
    /// lost.
    pub fn requeue(&mut self, samples: Vec<T>) -> (lost: usize)
        requires
            old(self).wf(),
        ensures
            final(self).wf(),
            final(self).spec_capacity() == old(self).spec_capacity(),
            final(self).spec_evicted() == old(self).spec_evicted(),
            final(self)@ == requeued(old(self)@, old(self).spec_capacity(), samples@),
            lost == samples@.len() - readmitted(
                old(self)@.len(),
                old(self).spec_capacity(),
                samples@.len(),
            ),
    {
        let ghost batch = samples@;
        let mut samples = samples;
        let total: usize = samples.len();
        let room: usize = self.capacity - self.items.len();
        let kept: usize = if total <= room {
            total
        } else {
            room
        };
        if kept > 0 {
            samples.truncate(kept);
            samples.append(&mut self.items);
            self.items = samples;
        }
        proof {
            assert(final(self).items@ =~= requeued(old(self)@, old(self).spec_capacity(), batch));
        }
        total - kept
    }
}

/// The number of samples that a run of pushes evicts in all: what the total
/// exceeds the capacity by.
pub open spec fn excess(total: nat, capacity: nat) -> nat {
    if total > capacity {
        (total - capacity) as nat
    } else {
        0
    }
}

/// Pushing `samples` one by one onto `items` keeps the newest `capacity`
/// samples of `items` followed by `samples`, in their order.
pub proof fn lemma_pushes_keep_newest<T>(items: Seq<T>, capacity: nat, samples: Seq<T>)
    requires
        capacity >= 1,
        items.len() <= capacity,
    ensures
        pushed_all(items, capacity, samples) == (items + samples).skip(
            excess(items.len() + samples.len(), capacity) as int,
        ),
        pushed_all(items, capacity, samples).len() <= capacity,
    decreases samples.len(),
{
    if samples.len() == 0 {
        assert(items + samples =~= items);
        assert(items.skip(0) =~= items);
    } else {
        let front = samples.drop_last();
        lemma_pushes_keep_newest(items, capacity, front);
        let before = pushed_all(items, capacity, front);
        let gone = excess(items.len() + front.len(), capacity);
        assert(before == (items + front).skip(gone as int));
        assert(items + samples =~= (items + front).push(samples.last()));
        assert(pushed(before, capacity, samples.last()) =~= (items + samples).skip(
            excess(items.len() + samples.len(), capacity) as int,
        ));
    }
}

/// Pushes that never fill the buffer beyond its capacity lose nothing: a
/// drain then returns exactly the pushed samples, in push order.
pub proof fn lemma_pushes_within_capacity<T>(capacity: nat, samples: Seq<T>)
    requires
        capacity >= 1,
        samples.len() <= capacity,
    ensures
        pushed_all(Seq::<T>::empty(), capacity, samples) == samples,
{
    lemma_pushes_keep_newest(Seq::<T>::empty(), capacity, samples);
    assert(Seq::<T>::empty() + samples =~= samples);
    assert(samples.skip(0) =~= samples);
}

/// Pushing more samples than the capacity into an empty buffer leaves
/// exactly the last `capacity` of them, oldest first.
pub proof fn lemma_pushes_beyond_capacity<T>(capacity: nat, samples: Seq<T>)
    requires
        capacity >= 1,
        samples.len() > capacity,
    ensures
        pushed_all(Seq::<T>::empty(), capacity, samples) == samples.skip(
            samples.len() - capacity,
        ),
        pushed_all(Seq::<T>::empty(), capacity, samples).len() == capacity,
{
    lemma_pushes_keep_newest(Seq::<T>::empty(), capacity, samples);
    assert(Seq::<T>::empty() + samples =~= samples);
}

/// A requeue followed by pushes keeps the order: what is left of the
/// requeued batch comes first, then what the buffer held, then the newly
/// pushed samples. Only a prefix of that sequence is ever evicted.
pub proof fn lemma_requeue_then_pushes<T>(
    items: Seq<T>,
    capacity: nat,
    batch: Seq<T>,
    pushes: Seq<T>,
)
    requires
        capacity >= 1,
        items.len() <= capacity,
    ensures
        ({
            let kept = batch.take(readmitted(items.len(), capacity, batch.len()) as int);
            pushed_all(requeued(items, capacity, batch), capacity, pushes) == (kept + items
                + pushes).skip(excess(kept.len() + items.len() + pushes.len(), capacity) as int)
        }),
{
    let kept = batch.take(readmitted(items.len(), capacity, batch.len()) as int);
    lemma_pushes_keep_newest(requeued(items, capacity, batch), capacity, pushes);
}

/// A batch that is requeued into the buffer it was drained from, with
/// nothing pushed in between, is back whole: nothing lost, nothing twice.
pub proof fn lemma_requeue_restores<T>(capacity: nat, batch: Seq<T>)
    requires
        batch.len() <= capacity,
    ensures
        requeued(Seq::<T>::empty(), capacity, batch) == batch,
{
    assert(batch.take(batch.len() as int) =~= batch);
    assert(batch + Seq::<T>::empty() =~= batch);
}

} // verus!
