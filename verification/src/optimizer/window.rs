//! A bounded window of recent samples.

use std::collections::VecDeque;
use vstd::prelude::*;

verus! {

/// The default number of samples retained.
///
/// Enough to see through noise, few enough to react within a few seconds of a
/// genuine change.
pub const DEFAULT_WINDOW: usize = 16;

/// How many samples it takes to see a trend: two points always fit a line
/// perfectly, which would report full confidence in a trend drawn through
/// nothing.
pub const MIN_WINDOW: usize = 3;

/// The last `capacity` of all samples.
pub open spec fn latest<S>(all: Seq<S>, capacity: nat) -> Seq<S> {
    if all.len() <= capacity {
        all
    } else {
        all.skip(all.len() - capacity)
    }
}

/// A bounded window of recent samples.
#[derive(Debug)]
pub struct SampleWindow<S> {
    samples: VecDeque<S>,
    capacity: usize,
}

impl<S> SampleWindow<S> {
    /// The samples retained, oldest first.
    pub closed spec fn retained(&self) -> Seq<S> {
        self.samples@
    }

    /// How many samples are retained at most.
    pub closed spec fn limit(&self) -> nat {
        self.capacity as nat
    }

    /// No more is retained than there is room for, and there is room for what it
    /// takes to see a trend.
    pub open spec fn wf(&self) -> bool {
        &&& self.retained().len() <= self.limit()
        &&& self.limit() >= MIN_WINDOW
    }

    /// Creates a window of the default size.
    pub fn new() -> (w: SampleWindow<S>)
        ensures
            w.wf(),
            w.retained() == Seq::<S>::empty(),
            w.limit() == DEFAULT_WINDOW,
    {
        SampleWindow { samples: VecDeque::new(), capacity: DEFAULT_WINDOW }
    }

    /// Sets how many samples are retained, at least as many as it takes to see a
    /// trend. The oldest samples beyond that are discarded.
    pub fn with_window(self, window: usize) -> (w: SampleWindow<S>)
        requires
            self.wf(),
        ensures
            w.wf(),
            w.limit() == if window < MIN_WINDOW {
                MIN_WINDOW as nat
            } else {
                window as nat
            },
            w.retained() == latest(self.retained(), w.limit()),
    {
        let capacity: usize = if window < MIN_WINDOW {
            MIN_WINDOW
        } else {
            window
        };
        let ghost all = self.samples@;
        let mut samples = self.samples;
        while samples.len() > capacity
            invariant
                samples@.len() <= all.len(),
                samples@ == all.skip(all.len() - samples@.len()),
                samples@.len() >= capacity || samples@ == all,
            decreases samples@.len(),
        {
            let ghost had = samples@;
            let _ = samples.pop_front();
            assert(samples@ =~= had.skip(1));
            assert(had.skip(1) =~= all.skip(all.len() - samples@.len()));
        }
        assert(all.skip(0) =~= all);
        SampleWindow { samples, capacity }
    }

    /// Records a sample; the oldest makes room for it where there is none.
    pub fn record(&mut self, sample: S)
        requires
            old(self).wf(),
        ensures
            final(self).wf(),
            final(self).limit() == old(self).limit(),
            final(self).retained() == latest(old(self).retained().push(sample), old(self).limit()),
    {
        let ghost had = self.samples@;
        if self.samples.len() == self.capacity {
            let _ = self.samples.pop_front();
            assert(self.samples@ =~= had.skip(1));
        }
        self.samples.push_back(sample);
        proof {
            if had.len() == self.capacity {
                assert(had.skip(1).push(sample) =~= had.push(sample).skip(1));
            }
        }
    }

    /// Returns how many samples are retained.
    pub fn len(&self) -> (n: usize)
        ensures
            n == self.retained().len(),
    {
        self.samples.len()
    }

    /// Returns `true` if nothing has been recorded.
    pub fn is_empty(&self) -> (r: bool)
        ensures
            r == (self.retained().len() == 0),
    {
        self.samples.len() == 0
    }

    /// Returns how many samples are retained at most.
    pub fn capacity(&self) -> (n: usize)
        ensures
            n == self.limit(),
    {
        self.capacity
    }

    /// Returns `true` once there are enough samples to see a trend.
    pub fn shows_a_trend(&self) -> (r: bool)
        ensures
            r == (self.retained().len() >= MIN_WINDOW),
    {
        self.samples.len() >= MIN_WINDOW
    }


    /// Returns the most recent sample.
    pub fn last(&self) -> (s: Option<&S>)
        ensures
            match s {
                Some(s) => self.retained().len() > 0 && *s == self.retained().last(),
                None => self.retained().len() == 0,
            },
    {
        let n: usize = self.samples.len();
        if n > 0 {
            Some(&self.samples[n - 1])
        } else {
            None
        }
    }

    /// Discards all history.
    pub fn reset(&mut self)
        requires
            old(self).wf(),
        ensures
            final(self).wf(),
            final(self).retained() == Seq::<S>::empty(),
            final(self).limit() == old(self).limit(),
    {
        self.samples.clear();
    }
}

/// The window is bounded: however many samples were recorded, exactly the latest
/// are retained, so recording one more after the others is the same as recording
/// it after those that were retained.
pub proof fn old_samples_are_discarded<S>(all: Seq<S>, sample: S, capacity: nat)
    requires
        capacity > 0,
    ensures
        latest(all, capacity).len() <= capacity,
        latest(all.push(sample), capacity) == latest(latest(all, capacity).push(sample), capacity),
{
    assert(latest(all.push(sample), capacity) =~= latest(
        latest(all, capacity).push(sample),
        capacity,
    ));
}

impl<S: Copy> SampleWindow<S> {
    /// Returns the sample at position `i`, oldest first.
    pub fn at(&self, i: usize) -> (s: S)
        requires
            i < self.retained().len(),
        ensures
            s == self.retained()[i as int],
    {
        self.samples[i]
    }
}

impl<S: Copy> Clone for SampleWindow<S> {
    fn clone(&self) -> (w: SampleWindow<S>)
        ensures
            w.retained() == self.retained(),
            w.limit() == self.limit(),
    {
        let mut samples: VecDeque<S> = VecDeque::new();
        let mut i: usize = 0;
        while i < self.samples.len()
            invariant
                i <= self.samples@.len(),
                samples@ == self.samples@.take(i as int),
            decreases self.samples@.len() - i,
        {
            samples.push_back(self.samples[i]);
            i += 1;
            assert(self.samples@.take(i as int) =~= self.samples@.take(i - 1).push(
                self.samples@[i - 1],
            ));
        }
        assert(self.samples@.take(i as int) =~= self.samples@);
        SampleWindow { samples, capacity: self.capacity }
    }
}

/// What is retained ends with the latest samples, unbroken: as many as there is room
/// for, or all there are.
pub proof fn the_latest_samples_are_kept<S>(all: Seq<S>, capacity: nat, i: int)
    requires
        0 <= i < latest(all, capacity).len(),
    ensures
        all.len() <= capacity ==> latest(all, capacity).len() == all.len(),
        all.len() > capacity ==> latest(all, capacity).len() == capacity,
        latest(all, capacity)[latest(all, capacity).len() - 1 - i] == all[all.len() - 1 - i],
{
}

} // verus!
