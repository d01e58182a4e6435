//! The height field: a precomputed mapping from a world column `(x, z)` to
//! a terrain surface level.
//!
//! A coherent-noise sampler hands in one fixed-point sample per column, in
//! units of `SAMPLE_ONE` (so a sample lies in `[-SAMPLE_ONE, SAMPLE_ONE]`
//! for `[-1, 1]`). The field normalizes each sample to `[0, 1]` and maps it
//! linearly into `[height_min, height_max]`, keeping the floor of the
//! resulting height: the level a column's terrain surface sits at.

use vstd::prelude::*;

verus! {

/// The fixed-point unit: a sample of `SAMPLE_ONE` stands for 1.0.
pub const SAMPLE_ONE: i64 = 1_000_000;

/// `s` clamped into `[-SAMPLE_ONE, SAMPLE_ONE]`.
pub open spec fn spec_clamp_sample(s: int) -> int {
    if s < -(SAMPLE_ONE as int) {
        -(SAMPLE_ONE as int)
    } else if s > SAMPLE_ONE as int {
        SAMPLE_ONE as int
    } else {
        s
    }
}

/// The terrain level of a column whose noise sample is `s`: the sample is
/// normalized from `[-1, 1]` to `[0, 1]` and mapped linearly into
/// `[height_min, height_max]`, rounding down.
pub open spec fn spec_level(s: int, height_min: u32, height_max: u32) -> int {
    height_min + ((spec_clamp_sample(s) + SAMPLE_ONE) * (height_max - height_min)) / (
    2 * SAMPLE_ONE as int)
}

/// The level of any sample stays within `[height_min, height_max]`.
pub proof fn lemma_level_range(s: int, height_min: u32, height_max: u32)
    requires
        height_min <= height_max,
    ensures
        height_min <= spec_level(s, height_min, height_max) <= height_max,
{
    let one = SAMPLE_ONE as int;
    let a = spec_clamp_sample(s) + one;
    let b = height_max - height_min;
    assert(0 <= a <= 2 * one);
    assert(a * b <= 2 * one * b && 0 <= a * b) by (nonlinear_arith)
        requires
            0 <= a <= 2 * one,
            0 <= b,
    ;
    vstd::arithmetic::div_mod::lemma_div_is_ordered(a * b, 2 * one * b, 2 * one);
    vstd::arithmetic::div_mod::lemma_div_multiples_vanish(b, 2 * one);
    assert(2 * one * b == (2 * one) * b);
    vstd::arithmetic::div_mod::lemma_div_pos_is_pos(a * b, 2 * one);
}

/// A height field over a `width x depth` rectangle of world columns; the
/// level of column `(x, z)` sits at flat index `x * depth + z`.
#[derive(Clone, Debug)]
pub struct HeightField {
    pub width: usize,
    pub depth: usize,
    pub height_min: u32,
    pub height_max: u32,
    pub levels: Vec<u32>,
}

impl HeightField {
    /// One level per column, every level within the configured bounds.
    pub open spec fn wf(self) -> bool {
        &&& self.height_min <= self.height_max
        &&& self.levels@.len() == self.width * self.depth
        &&& forall|i: int|
            0 <= i < self.levels@.len()
                ==> self.height_min <= #[trigger] self.levels@[i] <= self.height_max
    }

    /// The level of column `(x, z)`.
    pub open spec fn spec_level_at(self, x: int, z: int) -> int {
        self.levels@[x * self.depth + z] as int
    }

    /// Builds the field from one fixed-point noise sample per column, laid
    /// out row by row: the sample for column `(x, z)` at `x * depth + z`.
    ///
    /// The result is a function of the arguments alone: equal samples and
    /// bounds give an equal field.
    pub fn generate(
        width: usize,
        depth: usize,
        samples: &Vec<i64>,
        height_min: u32,
        height_max: u32,
    ) -> (r: HeightField)
        requires
            samples@.len() == width * depth,
            height_min <= height_max,
        ensures
            r.wf(),
            r.width == width,
            r.depth == depth,
            r.height_min == height_min,
            r.height_max == height_max,
            forall|i: int|
                0 <= i < samples@.len()
                    ==> #[trigger] r.levels@[i] == spec_level(samples@[i] as int, height_min, height_max),
    {
        let mut levels: Vec<u32> = Vec::new();
        let n = samples.len();
        let mut i: usize = 0;
        while i < n
            invariant
                n == samples@.len(),
                i <= n,
                levels@.len() == i,
                height_min <= height_max,
                forall|k: int|
                    0 <= k < i
                        ==> #[trigger] levels@[k] == spec_level(samples@[k] as int, height_min, height_max),
                forall|k: int|
                    0 <= k < i ==> height_min <= #[trigger] levels@[k] <= height_max,
            decreases n - i,
        {
            let level = level_of_sample(samples[i], height_min, height_max);
            levels.push(level);
            i = i + 1;
        }
        HeightField { width, depth, height_min, height_max, levels }
    }

    /// The level of column `(x, z)`.
    pub fn level_at(&self, x: usize, z: usize) -> (r: u32)
        requires
            self.wf(),
            x < self.width,
            z < self.depth,
        ensures
            r as int == self.spec_level_at(x as int, z as int),
            self.height_min <= r <= self.height_max,
    {
        let n = self.levels.len();
        proof {
            lemma_flat_index_bound(x as int, z as int, self.width as int, self.depth as int);
            assert(x * self.depth + z < n);
        }
        self.levels[x * self.depth + z]
    }
}

/// A flat row-major index stays below the rectangle's area.
pub proof fn lemma_flat_index_bound(x: int, z: int, width: int, depth: int)
    requires
        0 <= x < width,
        0 <= z < depth,
    ensures
        0 <= x * depth + z < width * depth,
{
    assert(0 <= x * depth + z < width * depth) by (nonlinear_arith)
        requires
            0 <= x < width,
            0 <= z < depth,
    ;
}

/// The level of one sample, computed exactly as `spec_level` states it.
fn level_of_sample(s: i64, height_min: u32, height_max: u32) -> (r: u32)
    requires
        height_min <= height_max,
    ensures
        r as int == spec_level(s as int, height_min, height_max),
        height_min <= r <= height_max,
{
    let clamped: i64 = if s < -SAMPLE_ONE {
        -SAMPLE_ONE
    } else if s > SAMPLE_ONE {
        SAMPLE_ONE
    } else {
        s
    };
    let a: u64 = (clamped + SAMPLE_ONE) as u64;
    let b: u64 = (height_max - height_min) as u64;
    proof {
        lemma_level_range(s as int, height_min, height_max);
        assert(a * b <= 2000000 * 0xffff_ffff) by (nonlinear_arith)
            requires
                a <= 2000000,
                b <= 0xffff_ffff,
        ;
    }
    let q: u64 = (a * b) / (2 * SAMPLE_ONE as u64);
    height_min + q as u32
}

} // verus!
