//! Bandpass FIR coefficient synthesis.
//!
//! A coefficient set is the product of a symmetric band response (the
//! low-high windowed-sinc difference, a pure function of the distance
//! `|i - center|` from the center tap) and a symmetric taper window.
//! Both factors are supplied as half-tables covering distances `0..=
//! center` and positions `0..=center`; evaluating the transcendental
//! entries is the host's concern, while this module owns the validation
//! of the pass-band, the mirrored assembly and the proof that the result
//! is symmetric.

use vstd::prelude::*;

verus! {

use crate::convolve::{MAX_TAPS, TAP_LIMIT};
use crate::errors::WahwahError;
use crate::fixed::{UNIT, fx_mul, mul_unit, lemma_mul_abs_bound, lemma_div_trunc_bound};

/// Whether the pass-band `(f_low, f_high)` is acceptable for a filter at
/// `sample_rate`: edges strictly ordered and strictly inside
/// `(0, sample_rate / 2)`.  All three are `UNIT`-scaled hertz.
pub open spec fn band_ok(f_low: int, f_high: int, sample_rate: int) -> bool {
    &&& f_low < f_high
    &&& 0 < f_low
    &&& 0 < f_high
    &&& 2 * f_low < sample_rate
    &&& 2 * f_high < sample_rate
}

/// Check a requested pass-band, reporting `InvalidFilterRange` exactly
/// when an edge pair cannot be designed for, so the caller can keep its
/// previous valid coefficient set.
pub fn validate_band(f_low: i64, f_high: i64, sample_rate: i64) -> (result: Result<
    (),
    WahwahError,
>)
    requires
        sample_rate >= 1,
    ensures
        result is Ok <==> band_ok(f_low as int, f_high as int, sample_rate as int),
        result is Err ==> result == Err::<(), WahwahError>(WahwahError::InvalidFilterRange),
{
    if f_high <= f_low {
        return Err(WahwahError::InvalidFilterRange);
    }
    if f_low <= 0 || f_high <= 0 {
        return Err(WahwahError::InvalidFilterRange);
    }
    let half = (sample_rate - 1) / 2;
    proof {
        vstd::arithmetic::div_mod::lemma_fundamental_div_mod(sample_rate as int - 1, 2);
    }
    if f_low > half || f_high > half {
        return Err(WahwahError::InvalidFilterRange);
    }
    Ok(())
}

/// The coefficient at position `i` of a filter assembled from the two
/// half-tables: the band response at distance `|i - center|`, tapered by
/// the window at the position folded into the first half.
pub open spec fn tap_at(half_band: Seq<i64>, half_window: Seq<i64>, i: int) -> int {
    let center = half_band.len() - 1;
    let distance = if i <= center {
        center - i
    } else {
        i - center
    };
    let folded = if i <= center {
        i
    } else {
        2 * center - i
    };
    fx_mul(half_band[distance] as int, half_window[folded] as int)
}

/// Tap symmetry: the coefficient at `i` equals the one mirrored around
/// the center, for every position of every half-table pair.
pub proof fn lemma_taps_symmetric(half_band: Seq<i64>, half_window: Seq<i64>, i: int)
    requires
        half_band.len() >= 1,
        0 <= i < 2 * half_band.len() - 1,
    ensures
        tap_at(half_band, half_window, i) == tap_at(
            half_band,
            half_window,
            2 * (half_band.len() - 1) - i,
        ),
{
}

/// Assemble the full coefficient set from its two half-tables.  The
/// result has odd length `2 * half_band.len() - 1`, follows `tap_at`
/// exactly, is symmetric around the center tap, and stays within
/// `TAP_LIMIT`, ready for the convolution engine.
pub fn assemble_bandpass_taps(half_band: &Vec<i64>, half_window: &Vec<i64>) -> (taps: Vec<i64>)
    requires
        1 <= half_band@.len(),
        2 * half_band@.len() - 1 <= MAX_TAPS,
        half_window@.len() == half_band@.len(),
        forall|k: int|
            0 <= k < half_band@.len() ==> -TAP_LIMIT <= #[trigger] half_band@[k] <= TAP_LIMIT,
        forall|k: int| 0 <= k < half_window@.len() ==> 0 <= #[trigger] half_window@[k] <= UNIT,
    ensures
        taps@.len() == 2 * half_band@.len() - 1,
        forall|i: int|
            0 <= i < taps@.len() ==> #[trigger] taps@[i] as int == tap_at(
                half_band@,
                half_window@,
                i,
            ),
        forall|i: int|
            0 <= i < taps@.len() ==> #[trigger] taps@[i] == taps@[taps@.len() - 1 - i],
        forall|i: int| 0 <= i < taps@.len() ==> -TAP_LIMIT <= #[trigger] taps@[i] <= TAP_LIMIT,
{
    let half_len = half_band.len();
    let num_taps = 2 * half_len - 1;
    let center = half_len - 1;
    let mut taps: Vec<i64> = Vec::new();
    let mut i: usize = 0;
    while i < num_taps
        invariant
            i <= num_taps,
            half_len == half_band@.len(),
            half_window@.len() == half_len,
            1 <= half_len,
            num_taps == 2 * half_len - 1,
            num_taps <= MAX_TAPS,
            center == half_len - 1,
            forall|k: int|
                0 <= k < half_band@.len() ==> -TAP_LIMIT <= #[trigger] half_band@[k] <= TAP_LIMIT,
            forall|k: int|
                0 <= k < half_window@.len() ==> 0 <= #[trigger] half_window@[k] <= UNIT,
            taps@.len() == i,
            forall|x: int|
                0 <= x < i ==> #[trigger] taps@[x] as int == tap_at(half_band@, half_window@, x),
            forall|x: int| 0 <= x < i ==> -TAP_LIMIT <= #[trigger] taps@[x] <= TAP_LIMIT,
        decreases num_taps - i,
    {
        let distance = if i <= center {
            center - i
        } else {
            i - center
        };
        let folded = if i <= center {
            i
        } else {
            2 * center - i
        };
        let band_value = half_band[distance];
        let window_value = half_window[folded];
        proof {
            lemma_mul_abs_bound(band_value as int, window_value as int, TAP_LIMIT as int,
                UNIT as int);
            lemma_div_trunc_bound(band_value as int * window_value as int, UNIT as int,
                TAP_LIMIT as int);
        }
        let tap = mul_unit(band_value, window_value);
        taps.push(tap);
        i += 1;
    }
    proof {
        assert forall|x: int| 0 <= x < taps@.len() implies #[trigger] taps@[x]
            == taps@[taps@.len() - 1 - x] by {
            lemma_taps_symmetric(half_band@, half_window@, x);
        }
    }
    taps
}

} // verus!
