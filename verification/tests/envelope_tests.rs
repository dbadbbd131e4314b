use wahwah::envelope::{Envelope, EnvelopeState, RATE_LIMIT};

const UNIT: i64 = 1_000_000;

#[test]
fn test_new_envelope() {
    let env = Envelope::new(100_000, 50_000, 500_000, 200_000);
    assert_eq!(env.state, EnvelopeState::Waiting);
    assert_eq!(env.curr_value, 0);
    assert_eq!(env.attack_rate, 100_000);
    assert_eq!(env.decay_rate, 50_000);
    assert_eq!(env.onset_threshold, 500_000);
    assert_eq!(env.reset_threshold, 200_000);
}

#[test]
fn test_process_one_sample_attack_to_decay() {
    let mut env = Envelope::new(50_000, 50_000, 500_000, 200_000);
    env.state = EnvelopeState::Attack;
    env.curr_value = 950_000;
    // Still above threshold, but should now switch to decay.
    let output = env.process_one_sample(600_000);
    assert_eq!(env.state, EnvelopeState::Decay);
    // Should cap at 1.0.
    assert_eq!(output, UNIT);
}

#[test]
fn test_process_one_sample_decay_to_waiting() {
    let mut env = Envelope::new(100_000, 100_000, 500_000, 200_000);
    env.state = EnvelopeState::Decay;
    env.curr_value = 100_000;
    // Still above the reset threshold; that must not affect this state.
    let output = env.process_one_sample(600_000);
    assert_eq!(env.state, EnvelopeState::Waiting);
    // Should decay to zero and return to waiting.
    assert_eq!(output, 0);
}

#[test]
fn test_set_params() {
    let mut env = Envelope::new(100_000, 50_000, 500_000, 200_000);
    let clamped = env.set_params(200_000, 100_000, 600_000, 300_000);
    assert!(!clamped);
    assert_eq!(env.attack_rate, 200_000);
    assert_eq!(env.decay_rate, 100_000);
    assert_eq!(env.onset_threshold, 600_000);
    assert_eq!(env.reset_threshold, 300_000);
}

#[test]
fn test_envelope_transition_timing() {
    // attack_rate = decay_rate = 0.1, onset_threshold = 0.5, constant
    // input 0.6: one call enters attack, ten further calls reach 1.0 and
    // enter decay, ten more return to waiting at 0.0.
    let mut env = Envelope::new(100_000, 100_000, 500_000, 200_000);
    let sample = 600_000;

    let first = env.process_one_sample(sample);
    assert_eq!(env.state, EnvelopeState::Attack);
    assert_eq!(first, 0);

    for step in 1..=9 {
        let value = env.process_one_sample(sample);
        assert_eq!(env.state, EnvelopeState::Attack);
        assert_eq!(value, step * 100_000);
    }
    let peak = env.process_one_sample(sample);
    assert_eq!(env.state, EnvelopeState::Decay);
    assert_eq!(peak, UNIT);

    for step in 1..=9 {
        let value = env.process_one_sample(sample);
        assert_eq!(env.state, EnvelopeState::Decay);
        assert_eq!(value, UNIT - step * 100_000);
    }
    let floor = env.process_one_sample(sample);
    assert_eq!(env.state, EnvelopeState::Waiting);
    assert_eq!(floor, 0);
}

#[test]
fn test_final_state_releases_at_reset_threshold() {
    let mut env = Envelope::new(100_000, 100_000, 500_000, 200_000);
    // Only direct external assignment reaches the reserved hold state.
    env.state = EnvelopeState::Final;
    env.curr_value = 700_000;
    let held = env.process_one_sample(600_000);
    assert_eq!(env.state, EnvelopeState::Final);
    assert_eq!(held, 700_000);
    let released = env.process_one_sample(200_000);
    assert_eq!(env.state, EnvelopeState::Waiting);
    assert_eq!(released, 700_000);
}

#[test]
fn test_out_of_domain_params_are_clamped_and_reported() {
    let mut env = Envelope::new(-5, 2 * RATE_LIMIT, 3_000_000, -1);
    assert_eq!(env.attack_rate, 0);
    assert_eq!(env.decay_rate, RATE_LIMIT);
    assert_eq!(env.onset_threshold, UNIT);
    assert_eq!(env.reset_threshold, 0);

    let clamped = env.set_params(-100, 50_000, 500_000, 200_000);
    assert!(clamped);
    assert_eq!(env.attack_rate, 0);
    let unclamped = env.set_params(100, 50_000, 500_000, 200_000);
    assert!(!unclamped);
}
