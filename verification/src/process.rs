//! Per-block parameter plumbing: the arithmetic the effect performs
//! around the filter on every processing call — averaging a block for
//! onset detection, perturbing the base pass-band edges with the
//! oscillator output, and scaling the filtered block by the gain.

use vstd::prelude::*;

verus! {

use crate::convolve::{SAMPLE_LIMIT, CONV_OUTPUT_LIMIT};
use crate::fixed::{UNIT, div_trunc, fx_mul, mul_unit};

/// Largest accepted block length.
pub const BLOCK_LEN_LIMIT: usize = 1_000_000_000;

/// Largest accepted base cutoff frequency (`UNIT`-scaled hertz).
pub const EDGE_LIMIT: i64 = 1_000_000_000_000;

/// Largest accepted modulation intensity (`UNIT`-scaled).
pub const INTENSITY_LIMIT: i64 = 1_000_000_000_000;

/// Factor by which the envelope amplitude boosts the modulation
/// intensity while onset detection is active.
pub const ONSET_BOOST: i64 = 500;

/// Sum of a sample sequence.
pub open spec fn sum_of(s: Seq<i64>) -> int
    decreases s.len(),
{
    if s.len() == 0 {
        0
    } else {
        sum_of(s.drop_last()) + s.last()
    }
}

/// Arithmetic mean of a block, truncated toward zero — the single
/// amplitude estimate the envelope follower is fed per block.
pub fn mean_sample(block: &Vec<i64>) -> (result: i64)
    requires
        1 <= block@.len() <= BLOCK_LEN_LIMIT,
        forall|i: int|
            0 <= i < block@.len() ==> -SAMPLE_LIMIT <= #[trigger] block@[i] <= SAMPLE_LIMIT,
    ensures
        result as int == div_trunc(sum_of(block@), block@.len() as int),
{
    let len = block.len();
    let mut acc: i64 = 0;
    let mut i: usize = 0;
    while i < len
        invariant
            i <= len,
            len == block@.len(),
            1 <= len <= BLOCK_LEN_LIMIT,
            forall|x: int|
                0 <= x < block@.len() ==> -SAMPLE_LIMIT <= #[trigger] block@[x] <= SAMPLE_LIMIT,
            acc as int == sum_of(block@.take(i as int)),
            -(i as int) * SAMPLE_LIMIT <= acc as int <= (i as int) * SAMPLE_LIMIT,
        decreases len - i,
    {
        proof {
            assert(block@.take(i as int + 1).drop_last() =~= block@.take(i as int));
            assert((i as int + 1) * SAMPLE_LIMIT == (i as int) * SAMPLE_LIMIT + SAMPLE_LIMIT)
                by (nonlinear_arith);
            assert((i as int) * SAMPLE_LIMIT <= (BLOCK_LEN_LIMIT as int) * SAMPLE_LIMIT)
                by (nonlinear_arith)
                requires 0 <= i as int <= BLOCK_LEN_LIMIT as int;
            assert((i as int + 1) * SAMPLE_LIMIT <= (BLOCK_LEN_LIMIT as int) * SAMPLE_LIMIT)
                by (nonlinear_arith)
                requires 0 <= i as int + 1 <= BLOCK_LEN_LIMIT as int;
        }
        acc = acc + block[i];
        i += 1;
    }
    proof {
        assert(block@.take(len as int) =~= block@);
    }
    let divisor = len as i64;
    if acc >= 0 {
        acc / divisor
    } else {
        -((-acc) / divisor)
    }
}

/// One modulated pass-band edge: the base cutoff shifted by the
/// oscillator sample scaled with the intensity, which the envelope
/// amplitude boosts by `ONSET_BOOST` while onset detection is active.
pub fn modulated_edge(
    base: i64,
    lfo_value: i64,
    intensity: i64,
    env_amplitude: i64,
    use_onset: bool,
) -> (result: i64)
    requires
        -EDGE_LIMIT <= base <= EDGE_LIMIT,
        -UNIT <= lfo_value <= UNIT,
        0 <= intensity <= INTENSITY_LIMIT,
        0 <= env_amplitude <= UNIT,
    ensures
        result as int == base + fx_mul(
            lfo_value as int,
            intensity + (if use_onset {
                ONSET_BOOST * env_amplitude
            } else {
                0
            }),
        ),
{
    let boost: i64 = if use_onset {
        ONSET_BOOST * env_amplitude
    } else {
        0
    };
    let swing: i64 = intensity + boost;
    proof {
        crate::fixed::lemma_mul_abs_bound(
            lfo_value as int,
            swing as int,
            UNIT as int,
            INTENSITY_LIMIT as int + ONSET_BOOST as int * UNIT as int,
        );
        crate::fixed::lemma_div_trunc_bound(
            lfo_value as int * swing as int,
            UNIT as int,
            INTENSITY_LIMIT as int + ONSET_BOOST as int * UNIT as int,
        );
    }
    let shift = mul_unit(lfo_value, swing);
    base + shift
}

/// Scale every sample of a filtered block by `gain` in `[0, UNIT]`, in
/// place.
pub fn apply_gain(block: &mut Vec<i64>, gain: i64)
    requires
        0 <= gain <= UNIT,
        forall|i: int|
            0 <= i < old(block)@.len() ==> -CONV_OUTPUT_LIMIT <= #[trigger] old(block)@[i]
                <= CONV_OUTPUT_LIMIT,
    ensures
        final(block)@.len() == old(block)@.len(),
        forall|i: int|
            0 <= i < final(block)@.len() ==> #[trigger] final(block)@[i] as int == fx_mul(
                old(block)@[i] as int,
                gain as int,
            ),
{
    let len = block.len();
    let mut i: usize = 0;
    while i < len
        invariant
            i <= len,
            len == block@.len(),
            0 <= gain <= UNIT,
            forall|x: int|
                i <= x < block@.len() ==> -CONV_OUTPUT_LIMIT <= #[trigger] block@[x]
                    <= CONV_OUTPUT_LIMIT,
            forall|x: int| i <= x < block@.len() ==> block@[x] == old(block)@[x],
            forall|x: int|
                0 <= x < i ==> #[trigger] block@[x] as int == fx_mul(
                    old(block)@[x] as int,
                    gain as int,
                ),
        decreases len - i,
    {
        let value = block[i];
        proof {
            crate::fixed::lemma_mul_abs_bound(
                value as int,
                gain as int,
                CONV_OUTPUT_LIMIT as int,
                UNIT as int,
            );
        }
        let scaled = mul_unit(value, gain);
        block.set(i, scaled);
        i += 1;
    }
}

} // verus!
