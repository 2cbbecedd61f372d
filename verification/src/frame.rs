//! The running histogram: a width*height buffer of hit counts, zeroed at
//! birth, grown by elementwise addition of one dispatch's delta, and
//! serialized through the bundle codec.

use crate::codec::spec_bundle_bytes;
use crate::engine::DispatchPlan;
use vstd::prelude::*;
use vstd::std_specs::vec::vec_index_mut;

verus! {

/// Sum of all counts in a histogram.
pub open spec fn spec_count_sum(s: Seq<u32>) -> int
    decreases s.len(),
{
    if s.len() == 0 {
        0
    } else {
        spec_count_sum(s.drop_last()) + s.last()
    }
}

/// Largest count in a histogram; zero for the empty one.
pub open spec fn spec_count_max(s: Seq<u32>) -> int
    decreases s.len(),
{
    if s.len() == 0 {
        0
    } else if s.last() >= spec_count_max(s.drop_last()) {
        s.last() as int
    } else {
        spec_count_max(s.drop_last())
    }
}

/// A count after one addition, wrapping around on overflow rather than
/// flagging it.
pub open spec fn spec_wrap_add(a: u32, b: u32) -> u32 {
    vstd::wrapping::u32_specs::wrapping_add(a, b)
}

/// A running histogram driven by repeated sampling dispatches.
pub struct AccumulationFrame {
    pub plan: DispatchPlan,
    pub max_iters: u32,
    pub frame: Vec<u32>,
}

impl AccumulationFrame {
    /// The histogram matches its sizing: one count per pixel.
    pub open spec fn wf(self) -> bool {
        &&& self.plan.wf()
        &&& self.frame@.len() == self.plan.width * self.plan.height
    }

    /// A fresh, all-zero histogram for the given sizing.
    pub fn new(plan: DispatchPlan, max_iters: u32) -> (r: AccumulationFrame)
        requires
            plan.wf(),
        ensures
            r.wf(),
            r.plan == plan,
            r.max_iters == max_iters,
            forall|j: int| 0 <= j < r.frame@.len() ==> r.frame@[j] == 0u32,
    {
        let cells: usize = ((plan.width as u64) * (plan.height as u64)) as usize;
        let frame: Vec<u32> = vec![0u32; cells];
        AccumulationFrame { plan, max_iters, frame }
    }

    /// Zero every count; the sizing and iteration cap stay as they were.
    pub fn reset(&mut self)
        requires
            old(self).wf(),
        ensures
            final(self).wf(),
            final(self).plan == old(self).plan,
            final(self).max_iters == old(self).max_iters,
            final(self).frame@.len() == old(self).frame@.len(),
            forall|j: int| 0 <= j < final(self).frame@.len() ==> final(self).frame@[j] == 0u32,
    {
        let n = self.frame.len();
        for j in 0..n
            invariant
                self.frame@.len() == n,
                self.plan == old(self).plan,
                self.max_iters == old(self).max_iters,
                forall|i: int| 0 <= i < j ==> self.frame@[i] == 0u32,
        {
            *vec_index_mut(&mut self.frame, j) = 0;
        }
    }

    /// Add one dispatch's per-pixel delta into the histogram, count by
    /// count, wrapping on overflow as the running counters always have.
    pub fn accumulate(&mut self, delta: &Vec<u32>)
        requires
            old(self).wf(),
            delta@.len() == old(self).frame@.len(),
        ensures
            final(self).wf(),
            final(self).plan == old(self).plan,
            final(self).max_iters == old(self).max_iters,
            final(self).frame@.len() == old(self).frame@.len(),
            forall|j: int|
                0 <= j < final(self).frame@.len() ==> final(self).frame@[j] == spec_wrap_add(
                    old(self).frame@[j],
                    delta@[j],
                ),
    {
        let ghost orig = self.frame@;
        let n = self.frame.len();
        for j in 0..n
            invariant
                self.frame@.len() == n,
                delta@.len() == n,
                self.plan == old(self).plan,
                self.max_iters == old(self).max_iters,
                forall|i: int| 0 <= i < j ==> self.frame@[i] == spec_wrap_add(orig[i], delta@[i]),
                forall|i: int| j <= i < n ==> self.frame@[i] == orig[i],
        {
            let v = self.frame[j].wrapping_add(delta[j]);
            *vec_index_mut(&mut self.frame, j) = v;
        }
    }

    /// The histogram's total hit count and its largest cell, the latter
    /// absent for a zero-pixel geometry.
    pub fn stats(&self) -> (r: (u64, Option<u64>))
        requires
            self.wf(),
        ensures
            r.0 == spec_count_sum(self.frame@),
            r.1 == if self.frame@.len() == 0 {
                Option::<u64>::None
            } else {
                Some(spec_count_max(self.frame@) as u64)
            },
    {
        let n = self.frame.len();
        proof {
            assert(n <= u32::MAX);
        }
        let mut sum: u64 = 0;
        let mut max: u64 = 0;
        for j in 0..n
            invariant
                self.frame@.len() == n,
                n <= u32::MAX,
                sum == spec_count_sum(self.frame@.take(j as int)),
                sum <= (j as int) * (u32::MAX as int),
                max == spec_count_max(self.frame@.take(j as int)),
        {
            let v = self.frame[j];
            proof {
                assert(self.frame@.take(j + 1).drop_last() =~= self.frame@.take(j as int));
                assert((j as int) * (u32::MAX as int) + (u32::MAX as int) == (j + 1) * (
                u32::MAX as int)) by (nonlinear_arith);
            }
            sum = sum + v as u64;
            if v as u64 > max {
                max = v as u64;
            }
        }
        proof {
            assert(self.frame@.take(n as int) =~= self.frame@);
        }
        if n == 0 {
            (sum, None)
        } else {
            (sum, Some(max))
        }
    }

    /// The histogram serialized in the bundle byte layout.
    pub fn to_bundle_bytes(&self) -> (r: Vec<u8>)
        requires
            self.wf(),
        ensures
            r@ == spec_bundle_bytes(self.max_iters, self.plan.width, self.plan.height,
                self.frame@),
    {
        crate::codec::encode_bundle(self.max_iters, self.plan.width, self.plan.height, &self.frame)
    }
}

} // verus!
