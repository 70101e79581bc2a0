//! Fixed-window numeric smoothing: a rolling mean over the most recent
//! `max_size` samples, used by the tick scheduler for diagnostics.
//!
//! Samples are scaled integers (thousandths), since the diagnostics this
//! window smooths are rates and fractions kept in fixed point.

use std::collections::VecDeque;
use vstd::prelude::*;

verus! {

/// Sum of a sequence of samples, as a mathematical integer.
pub open spec fn seq_sum(s: Seq<u32>) -> int
    decreases s.len(),
{
    if s.len() == 0 {
        0
    } else {
        seq_sum(s.drop_last()) + s.last()
    }
}

pub proof fn lemma_seq_sum_bounds(s: Seq<u32>)
    ensures
        0 <= seq_sum(s) <= s.len() * (u32::MAX as int),
    decreases s.len(),
{
    if s.len() > 0 {
        lemma_seq_sum_bounds(s.drop_last());
        assert((s.len() - 1) * (u32::MAX as int) + u32::MAX as int == s.len() * (u32::MAX as int))
            by (nonlinear_arith);
    }
}

/// Removing the first sample removes exactly its value from the sum.
pub proof fn lemma_seq_sum_drop_first(s: Seq<u32>)
    requires
        s.len() > 0,
    ensures
        seq_sum(s) == s.first() + seq_sum(s.drop_first()),
    decreases s.len(),
{
    if s.len() == 1 {
        assert(s.drop_first() =~= Seq::<u32>::empty());
        assert(seq_sum(s.drop_first()) == 0);
        assert(s.drop_last() =~= Seq::<u32>::empty());
        assert(seq_sum(s) == s.last());
        assert(s.last() == s.first());
    } else {
        lemma_seq_sum_drop_first(s.drop_last());
        assert(s.drop_last().drop_first() =~= s.drop_first().drop_last());
        assert(s.drop_first().last() == s.last());
        assert(s.drop_last().first() == s.first());
        assert(seq_sum(s.drop_first()) == seq_sum(s.drop_first().drop_last()) + s.drop_first().last());
    }
}

/// A rolling mean over the most recent `max_size` samples.
pub struct RollingAverage {
    max_size: usize,
    queue: VecDeque<u32>,
    sum: u64,
}

impl RollingAverage {
    /// The samples currently inside the window, oldest first.
    pub closed spec fn window(&self) -> Seq<u32> {
        self.queue@
    }

    /// The configured window capacity.
    pub closed spec fn capacity(&self) -> int {
        self.max_size as int
    }

    /// The stored sum always matches the window's contents, and the window
    /// never outgrows its capacity, which itself is small enough that the
    /// sum fits in 64 bits.
    pub closed spec fn wf(&self) -> bool {
        &&& self.sum == seq_sum(self.queue@)
        &&& self.queue@.len() <= self.max_size
        &&& self.max_size <= u32::MAX
    }

    /// The window a sample leaves behind: the sample goes in at the back,
    /// and if the window was already full the oldest sample falls out.
    pub open spec fn spec_pushed(w: Seq<u32>, value: u32, capacity: int) -> Seq<u32> {
        if w.len() + 1 > capacity {
            w.push(value).drop_first()
        } else {
            w.push(value)
        }
    }

    /// A new, empty window. The capacity bound keeps the running sum
    /// representable in 64 bits.
    pub fn new(max_size: usize) -> (r: Self)
        requires
            max_size <= u32::MAX,
        ensures
            r.wf(),
            r.window() == Seq::<u32>::empty(),
            r.capacity() == max_size,
    {
        Self { max_size, queue: VecDeque::new(), sum: 0 }
    }

    /// Add one sample, dropping the oldest if the window is full.
    pub fn add(&mut self, value: u32)
        requires
            old(self).wf(),
        ensures
            final(self).wf(),
            final(self).capacity() == old(self).capacity(),
            final(self).window() == Self::spec_pushed(old(self).window(), value, old(self).capacity()),
    {
        proof {
            lemma_seq_sum_bounds(self.queue@);
        }
        self.queue.push_back(value);
        assert(seq_sum(self.queue@) == old(self).sum + value) by {
            assert(self.queue@.drop_last() =~= old(self).queue@);
        }
        self.sum = self.sum + value as u64;

        if self.queue.len() > self.max_size {
            proof {
                lemma_seq_sum_drop_first(self.queue@);
                lemma_seq_sum_bounds(self.queue@.drop_first());
            }
            if let Some(removed) = self.queue.pop_front() {
                self.sum = self.sum - removed as u64;
            }
        }
    }

    /// The mean of the window, rounded down; zero when the window is empty.
    pub fn get_avg(&self) -> (r: u64)
        requires
            self.wf(),
        ensures
            self.window().len() == 0 ==> r == 0,
            self.window().len() > 0 ==> r == seq_sum(self.window()) / self.window().len() as int,
    {
        proof {
            lemma_seq_sum_bounds(self.queue@);
        }
        if self.queue.len() == 0 {
            0
        } else {
            self.sum / self.queue.len() as u64
        }
    }
}

} // verus!
