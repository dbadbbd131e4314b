use wahwah::lfo::LFO;

const UNIT: i64 = 1_000_000;

/// The wavetable the host bakes for an oscillator: entry `i` is
/// `sin(i * freq * 2 * pi / sample_rate)`, scaled to fixed point.
fn sine_table(freq_hz: f64, sample_rate: usize) -> Vec<i64> {
    (0..sample_rate)
        .map(|i| {
            let phase = i as f64 * freq_hz * 2.0 * std::f64::consts::PI / sample_rate as f64;
            (phase.sin() * UNIT as f64).round() as i64
        })
        .collect()
}

#[test]
fn test_lfo() {
    let table = sine_table(1.0, 628);
    let mut lfo = LFO::new(UNIT, 628, &table);
    let mut output = vec![0i64; 628];
    lfo.get_block(&mut output);

    // Within 1e-5 of 0, 1, 0 and -1 (PI/2, PI, 3*PI/2).
    assert!((output[0] - 0).abs() < 10);
    assert!((output[157] - UNIT).abs() < 10);
    assert!((output[314] - 0).abs() < 10);
    assert!((output[471] + UNIT).abs() < 10);
}

#[test]
fn test_get_block_advances_by_frequency() {
    // Frequency 2.0 at a 10-slot table: every output skips one slot.
    let table: Vec<i64> = (0..10).map(|i| i * 1000).collect();
    let mut lfo = LFO::new(2 * UNIT, 10, &table);
    let mut output = vec![0i64; 5];
    lfo.get_block(&mut output);
    assert_eq!(output, vec![0, 2000, 4000, 6000, 8000]);
}

#[test]
fn test_set_freq_within_epsilon_is_noop() {
    let table = sine_table(4.0, 100);
    let decoy: Vec<i64> = vec![123_456; 100];

    let mut untouched = LFO::new(4 * UNIT, 100, &table);
    let mut nudged = LFO::new(4 * UNIT, 100, &table);
    // Delta of 0.0005 is under the 0.001 threshold: nothing changes,
    // not even to the decoy table.
    let changed = nudged.set_freq(4 * UNIT + 500, &decoy);
    assert!(!changed);

    let mut expected = vec![0i64; 64];
    let mut actual = vec![0i64; 64];
    untouched.get_block(&mut expected);
    nudged.get_block(&mut actual);
    assert_eq!(expected, actual);
}

#[test]
fn test_set_freq_replaces_table_and_keeps_index() {
    let first_table: Vec<i64> = (0..8).map(|i| i * 100).collect();
    let second_table: Vec<i64> = (0..8).map(|i| 700 - i * 100).collect();
    let mut lfo = LFO::new(UNIT, 8, &first_table);

    // Advance the fractional index three whole slots.
    let mut warmup = vec![0i64; 3];
    lfo.get_block(&mut warmup);
    assert_eq!(warmup, vec![0, 100, 200]);

    // A change of 1.0 Hz is far over the threshold: new table, new rate,
    // but the read position carries on from slot three.
    let changed = lfo.set_freq(2 * UNIT, &second_table);
    assert!(changed);
    let mut output = vec![0i64; 2];
    lfo.get_block(&mut output);
    assert_eq!(output, vec![700 - 300, 700 - 500]);
}

#[test]
fn test_set_freq_idempotent() {
    let table = sine_table(4.0, 100);
    let retuned = sine_table(7.0, 100);

    let mut once = LFO::new(4 * UNIT, 100, &table);
    let mut twice = LFO::new(4 * UNIT, 100, &table);
    once.set_freq(7 * UNIT, &retuned);
    twice.set_freq(7 * UNIT, &retuned);
    twice.set_freq(7 * UNIT, &retuned);

    let mut expected = vec![0i64; 64];
    let mut actual = vec![0i64; 64];
    once.get_block(&mut expected);
    twice.get_block(&mut actual);
    assert_eq!(expected, actual);
}
