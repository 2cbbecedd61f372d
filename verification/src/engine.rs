//! Sizing rules of the sampling engine: the trial-count tiling constraint,
//! the derived dispatch grid, the device buffer sizes, and validation of the
//! sample batch handed to one dispatch.

use vstd::arithmetic::div_mod::lemma_fundamental_div_mod;
use vstd::prelude::*;

verus! {

/// Samples consumed by one row of the workgroup grid: 100 groups of 64
/// invocations, each invocation consuming two samples. A trial count must be
/// a multiple of this, so that the grid consumes every sample exactly once.
pub const SAMPLES_PER_GROUP_ROW: u32 = 12800;

/// Why the sampling engine refused an input.
#[derive(Debug, Clone, Copy, PartialEq, Eq, Structural)]
pub enum EngineError {
    /// The trial count does not fill a whole number of workgroup rows.
    NotTileable,
    /// The sample batch length does not equal the configured trial count.
    BatchLengthMismatch,
}

/// The fixed sizing of one engine instance: how many random samples one
/// dispatch consumes and the pixel geometry of the hit-count buffer.
#[derive(Debug, Clone, Copy, PartialEq, Eq, Structural)]
pub struct DispatchPlan {
    pub trials_x2: u32,
    pub width: u32,
    pub height: u32,
}

impl DispatchPlan {
    /// The sizing is well formed: the trial count fills whole workgroup
    /// rows and the hit-count buffer's byte size fits a device word.
    pub open spec fn wf(self) -> bool {
        &&& self.trials_x2 % SAMPLES_PER_GROUP_ROW == 0
        &&& 4 * (self.width * self.height) <= u32::MAX
    }

    /// Fix the sizing of an engine. Fails exactly when the trial count
    /// does not fill a whole number of workgroup rows, so that every
    /// accepted count is consumed in full by the dispatch grid.
    pub fn construct(trials_x2: u32, width: u32, height: u32) -> (r: Result<
        DispatchPlan,
        EngineError,
    >)
        requires
            4 * (width * height) <= u32::MAX,
        ensures
            r is Ok <==> trials_x2 % SAMPLES_PER_GROUP_ROW == 0,
            r matches Ok(p) ==> p == (DispatchPlan { trials_x2, width, height }) && p.wf(),
            r is Err ==> r == Err::<DispatchPlan, EngineError>(EngineError::NotTileable),
    {
        if trials_x2 % SAMPLES_PER_GROUP_ROW != 0 {
            return Err(EngineError::NotTileable);
        }
        Ok(DispatchPlan { trials_x2, width, height })
    }

    /// Rows of workgroups along the second grid axis.
    pub open spec fn spec_groups_y(self) -> u32 {
        self.trials_x2 / SAMPLES_PER_GROUP_ROW
    }

    /// The compute grid of one dispatch: 100 groups along the first axis,
    /// trials_x2 / 12800 along the second, one along the third.
    pub fn dispatch_grid(&self) -> (r: (u32, u32, u32))
        ensures
            r == (100u32, self.spec_groups_y(), 1u32),
    {
        (100, self.trials_x2 / SAMPLES_PER_GROUP_ROW, 1)
    }

    /// Accept a sample batch for one dispatch. Fails exactly when its
    /// length does not equal the configured trial count.
    pub fn validate_batch(&self, batch_len: usize) -> (r: Result<(), EngineError>)
        ensures
            r is Ok <==> batch_len == self.trials_x2,
            r is Err ==> r == Err::<(), EngineError>(EngineError::BatchLengthMismatch),
    {
        if batch_len == self.trials_x2 as usize {
            Ok(())
        } else {
            Err(EngineError::BatchLengthMismatch)
        }
    }

    /// Byte size of the per-pixel hit-count storage and staging buffers:
    /// one word per pixel.
    pub fn storage_bytes(&self) -> (r: u64)
        requires
            self.wf(),
        ensures
            r == 4 * (self.width * self.height),
    {
        proof {
            assert(4 * ((self.width as u64) * (self.height as u64)) == 4 * (self.width * self.height))
                by (nonlinear_arith);
        }
        4 * ((self.width as u64) * (self.height as u64))
    }

    /// Byte size of the random-input buffer: one word per sample.
    pub fn sample_bytes(&self) -> (r: u64)
        ensures
            r == 4 * self.trials_x2,
    {
        4 * (self.trials_x2 as u64)
    }
}

/// Round a requested trial count up to a whole number of workgroup rows:
/// the result is the least multiple of 12800 at or above twice the request.
pub fn adjust_trials(gpu_trials: u32) -> (r: u32)
    requires
        2 * gpu_trials + 12799 <= u32::MAX,
    ensures
        r % SAMPLES_PER_GROUP_ROW == 0,
        2 * gpu_trials <= r < 2 * gpu_trials + SAMPLES_PER_GROUP_ROW,
{
    let doubled: u32 = 2 * gpu_trials;
    let rem: u32 = doubled % SAMPLES_PER_GROUP_ROW;
    if rem == 0 {
        doubled
    } else {
        proof {
            let g = SAMPLES_PER_GROUP_ROW as int;
            let q = doubled as int / g;
            lemma_fundamental_div_mod(doubled as int, g);
            assert(doubled as int + (g - rem) == g * (q + 1)) by (nonlinear_arith)
                requires
                    doubled as int == g * q + rem,
            ;
            vstd::arithmetic::div_mod::lemma_mod_multiples_basic(q + 1, g);
        }
        doubled + (SAMPLES_PER_GROUP_ROW - rem)
    }
}

/// For every accepted trial count, the grid of (100, trials_x2 / 12800, 1)
/// workgroups, 64 invocations each, two samples per invocation, consumes
/// exactly trials_x2 samples: no sample is left over and none is reused.
pub proof fn lemma_grid_covers_trials(trials_x2: u32)
    requires
        trials_x2 % SAMPLES_PER_GROUP_ROW == 0,
    ensures
        100 * (trials_x2 / SAMPLES_PER_GROUP_ROW) * 64 * 2 == trials_x2,
{
    lemma_fundamental_div_mod(trials_x2 as int, SAMPLES_PER_GROUP_ROW as int);
    assert(100 * (trials_x2 as int / SAMPLES_PER_GROUP_ROW as int) * 64 * 2
        == SAMPLES_PER_GROUP_ROW as int * (trials_x2 as int / SAMPLES_PER_GROUP_ROW as int))
        by (nonlinear_arith);
}

} // verus!
