use wahwah::convolve::{apply_fir_filter_blockwise, init_history};
use wahwah::errors::WahwahError;
use wahwah::filter::{assemble_bandpass_taps, validate_band};
use wahwah::process::{apply_gain, mean_sample, modulated_edge};

const UNIT: i64 = 1_000_000;

/// Host-side halves of the windowed-sinc bandpass design for an
/// odd `num_taps`: the band response by distance from the center tap and
/// the Hamming window over the first half, both fixed-point.
fn design_halves(num_taps: usize, f_low: f64, f_high: f64, sample_rate: f64) -> (Vec<i64>, Vec<i64>) {
    let center = num_taps / 2;
    let fl = f_low / sample_rate;
    let fh = f_high / sample_rate;
    let band: Vec<i64> = (0..=center)
        .map(|distance| {
            let n = distance as f64;
            let value = if distance == 0 {
                2.0 * (fh - fl)
            } else {
                let xh = 2.0 * std::f64::consts::PI * fh * n;
                let xl = 2.0 * std::f64::consts::PI * fl * n;
                2.0 * fh * (xh.sin() / xh) - 2.0 * fl * (xl.sin() / xl)
            };
            (value * UNIT as f64).round() as i64
        })
        .collect();
    let window: Vec<i64> = (0..=center)
        .map(|i| {
            let value = 0.54
                - 0.46
                    * (2.0 * std::f64::consts::PI * i as f64 / (num_taps - 1) as f64).cos();
            (value * UNIT as f64).round() as i64
        })
        .collect();
    // The band half is indexed by distance from the center; the window
    // half by position, so its entries run toward the center tap.
    (band, window)
}

/// Reference taps computed wholly in floating point, for cross-checking.
fn float_taps(num_taps: usize, f_low: f64, f_high: f64, sample_rate: f64) -> Vec<f64> {
    let center = num_taps / 2;
    let fl = f_low / sample_rate;
    let fh = f_high / sample_rate;
    (0..num_taps)
        .map(|i| {
            let n = i as f64 - center as f64;
            let base = if n == 0.0 {
                2.0 * (fh - fl)
            } else {
                let xh = 2.0 * std::f64::consts::PI * fh * n;
                let xl = 2.0 * std::f64::consts::PI * fl * n;
                2.0 * fh * (xh.sin() / xh) - 2.0 * fl * (xl.sin() / xl)
            };
            base * (0.54
                - 0.46 * (2.0 * std::f64::consts::PI * i as f64 / (num_taps - 1) as f64).cos())
        })
        .collect()
}

#[test]
fn test_validate_band_accepts_interior_band() {
    assert_eq!(validate_band(100 * UNIT, 3000 * UNIT, 44100 * UNIT), Ok(()));
}

#[test]
fn test_validate_band_rejects_unordered_edges() {
    assert_eq!(
        validate_band(3000 * UNIT, 100 * UNIT, 44100 * UNIT),
        Err(WahwahError::InvalidFilterRange)
    );
    assert_eq!(
        validate_band(100 * UNIT, 100 * UNIT, 44100 * UNIT),
        Err(WahwahError::InvalidFilterRange)
    );
}

#[test]
fn test_validate_band_rejects_edges_outside_nyquist_interval() {
    assert_eq!(
        validate_band(0, 3000 * UNIT, 44100 * UNIT),
        Err(WahwahError::InvalidFilterRange)
    );
    assert_eq!(
        validate_band(-5, 3000 * UNIT, 44100 * UNIT),
        Err(WahwahError::InvalidFilterRange)
    );
    // The upper edge must stay strictly below half the sample rate.
    assert_eq!(
        validate_band(100 * UNIT, 22050 * UNIT, 44100 * UNIT),
        Err(WahwahError::InvalidFilterRange)
    );
    assert_eq!(
        validate_band(100 * UNIT, 22050 * UNIT - 1, 44100 * UNIT),
        Ok(())
    );
}

#[test]
fn test_assemble_taps_exact_values() {
    let half_band = vec![4_000_000, -2_000_000, 1_000_000];
    let half_window = vec![250_000, 500_000, 1_000_000];
    let taps = assemble_bandpass_taps(&half_band, &half_window);
    assert_eq!(taps, vec![250_000, -1_000_000, 4_000_000, -1_000_000, 250_000]);
}

#[test]
fn test_assembled_taps_are_symmetric() {
    let (band, window) = design_halves(101, 100.0, 3000.0, 44100.0);
    let taps = assemble_bandpass_taps(&band, &window);
    assert_eq!(taps.len(), 101);
    for i in 0..101 {
        assert_eq!(taps[i], taps[100 - i]);
    }
}

#[test]
fn test_assembled_taps_match_float_design() {
    let (band, window) = design_halves(101, 100.0, 3000.0, 44100.0);
    let fixed = assemble_bandpass_taps(&band, &window);
    let reference = float_taps(101, 100.0, 3000.0, 44100.0);
    for i in 0..101 {
        let difference = fixed[i] as f64 / UNIT as f64 - reference[i];
        assert!(difference.abs() < 1e-5);
    }
}

#[test]
fn test_convolution_exact_values() {
    let input = vec![1_000_000, 0, -500_000];
    let taps = vec![1_000_000, 500_000];
    let mut history = init_history(taps.len());
    assert_eq!(history, vec![0]);
    let output = apply_fir_filter_blockwise(&input, &taps, &mut history);
    // combined = [0, 1.0, 0.0, -0.5]; output[i] = sum of
    // combined[i + j] * taps[j].
    assert_eq!(output, vec![500_000, 1_000_000, -250_000]);
    assert_eq!(history, vec![-500_000]);
}

#[test]
fn test_history_slides_when_block_is_shorter_than_filter() {
    let taps = vec![1_000_000, 0, 0, 0, 1_000_000];
    let mut history = vec![10, 20, 30, 40];
    let input = vec![50, 60];
    let output = apply_fir_filter_blockwise(&input, &taps, &mut history);
    // combined = [10, 20, 30, 40, 50, 60].
    assert_eq!(output, vec![10 + 50, 20 + 60]);
    // The old history shifts left by the block length and the raw input
    // slides in.
    assert_eq!(history, vec![30, 40, 50, 60]);
}

#[test]
fn test_streaming_equivalence() {
    let signal: Vec<i64> = vec![
        1_000_000, -400_000, 250_000, 0, 812_345, -1_000_000, 31_416, 500_000, -250_000, 99_999,
        -750_000, 123_456,
    ];
    let (band, window) = design_halves(9, 100.0, 3000.0, 44100.0);
    let taps = assemble_bandpass_taps(&band, &window);

    let mut whole_history = init_history(taps.len());
    let whole = apply_fir_filter_blockwise(&signal, &taps, &mut whole_history);

    for split in [&[5usize, 7][..], &[1, 4, 7][..], &[12][..], &[2, 2, 2, 2, 2, 2][..]] {
        let mut history = init_history(taps.len());
        let mut streamed: Vec<i64> = Vec::new();
        let mut start = 0usize;
        for &length in split {
            let block: Vec<i64> = signal[start..start + length].to_vec();
            let filtered = apply_fir_filter_blockwise(&block, &taps, &mut history);
            streamed.extend_from_slice(&filtered);
            start += length;
        }
        assert_eq!(streamed, whole);
        assert_eq!(history, whole_history);
    }
}

#[test]
fn test_mean_sample_truncates_toward_zero() {
    assert_eq!(mean_sample(&vec![3, -4, 6]), 1);
    assert_eq!(mean_sample(&vec![-7, -2]), -4);
    assert_eq!(mean_sample(&vec![1_000_000]), 1_000_000);
}

#[test]
fn test_modulated_edge_values() {
    // base 1000 Hz, oscillator at 0.5, intensity 2.0, envelope at 1.0.
    let boosted = modulated_edge(1_000 * UNIT, 500_000, 2 * UNIT, UNIT, true);
    assert_eq!(boosted, 1_000 * UNIT + 251_000_000);
    let plain = modulated_edge(1_000 * UNIT, 500_000, 2 * UNIT, UNIT, false);
    assert_eq!(plain, 1_000 * UNIT + 1_000_000);
}

#[test]
fn test_apply_gain_scales_in_place() {
    let mut block = vec![1_000_000, -2_000_000, 123, -123];
    apply_gain(&mut block, 500_000);
    // Truncation is toward zero on both signs.
    assert_eq!(block, vec![500_000, -1_000_000, 61, -61]);
    let mut silent = vec![750_000, -250_000];
    apply_gain(&mut silent, 0);
    assert_eq!(silent, vec![0, 0]);
}
