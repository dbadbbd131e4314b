//! Attack–decay envelope follower.
//!
//! Sits in the `Waiting` state until the amplitude of the input sample
//! exceeds the onset threshold, then runs through the `Attack` and
//! `Decay` stages and returns to `Waiting`.  The amplitude is clamped to
//! `[0, UNIT]` on every update.  `Final` is a reserved hold state: no
//! transition of the table enters it, only direct external assignment of
//! `state` does, and a sample at or below the reset threshold releases it.

use vstd::prelude::*;

verus! {

use crate::fixed::{UNIT, clamp, clamp_spec};

/// Largest accepted attack or decay rate; rates are clamped here so one
/// update never leaves a 64-bit word.
pub const RATE_LIMIT: i64 = 1_000_000_000_000;

#[derive(Clone, Copy, Debug, PartialEq, Eq, Structural)]
pub enum EnvelopeState {
    Waiting,
    Attack,
    Decay,
    Final,
}

pub struct Envelope {
    /// Current stage of the state machine.  Public so a host may park the
    /// follower in the reserved `Final` hold state directly.
    pub state: EnvelopeState,
    /// Current amplitude, `UNIT`-scaled, kept in `[0, UNIT]`.
    pub curr_value: i64,
    /// Attack rate per sample, `UNIT`-scaled.
    pub attack_rate: i64,
    /// Decay rate per sample, `UNIT`-scaled.
    pub decay_rate: i64,
    /// Amplitude above which `Waiting` hands over to `Attack`.
    pub onset_threshold: i64,
    /// Amplitude at or below which the `Final` hold state releases.
    pub reset_threshold: i64,
}

/// One step of the transition table: from a stage and amplitude, under a
/// given input sample and parameter set, to the next stage and amplitude.
pub open spec fn env_step(
    state: EnvelopeState,
    value: int,
    sample: int,
    attack_rate: int,
    decay_rate: int,
    onset_threshold: int,
    reset_threshold: int,
) -> (EnvelopeState, int) {
    match state {
        EnvelopeState::Waiting => if sample > onset_threshold {
            (EnvelopeState::Attack, value)
        } else {
            (EnvelopeState::Waiting, value)
        },
        EnvelopeState::Attack => if value + attack_rate >= UNIT {
            (EnvelopeState::Decay, UNIT as int)
        } else {
            (EnvelopeState::Attack, value + attack_rate)
        },
        EnvelopeState::Decay => if value - decay_rate <= 0 {
            (EnvelopeState::Waiting, 0)
        } else {
            (EnvelopeState::Decay, value - decay_rate)
        },
        EnvelopeState::Final => if sample <= reset_threshold {
            (EnvelopeState::Waiting, value)
        } else {
            (EnvelopeState::Final, value)
        },
    }
}

impl Envelope {
    /// Validity: amplitude in `[0, UNIT]`, rates nonnegative and bounded,
    /// thresholds in `[0, UNIT]`.
    pub open spec fn wf(&self) -> bool {
        &&& 0 <= self.curr_value <= UNIT
        &&& 0 <= self.attack_rate <= RATE_LIMIT
        &&& 0 <= self.decay_rate <= RATE_LIMIT
        &&& 0 <= self.onset_threshold <= UNIT
        &&& 0 <= self.reset_threshold <= UNIT
    }

    /// Fresh follower in `Waiting` with amplitude zero.  Parameters
    /// outside their documented domain are clamped into it.
    pub fn new(
        attack_rate: i64,
        decay_rate: i64,
        onset_threshold: i64,
        reset_threshold: i64,
    ) -> (result: Self)
        ensures
            result.wf(),
            result.state == EnvelopeState::Waiting,
            result.curr_value == 0,
            result.attack_rate == clamp_spec(attack_rate as int, 0, RATE_LIMIT as int),
            result.decay_rate == clamp_spec(decay_rate as int, 0, RATE_LIMIT as int),
            result.onset_threshold == clamp_spec(onset_threshold as int, 0, UNIT as int),
            result.reset_threshold == clamp_spec(reset_threshold as int, 0, UNIT as int),
    {
        Envelope {
            state: EnvelopeState::Waiting,
            curr_value: 0,
            attack_rate: clamp(attack_rate, 0, RATE_LIMIT),
            decay_rate: clamp(decay_rate, 0, RATE_LIMIT),
            onset_threshold: clamp(onset_threshold, 0, UNIT),
            reset_threshold: clamp(reset_threshold, 0, UNIT),
        }
    }

    /// Apply the transition table once for `sample` and return the
    /// (possibly just-updated) amplitude.
    pub fn process_one_sample(&mut self, sample: i64) -> (result: i64)
        requires
            old(self).wf(),
        ensures
            final(self).wf(),
            ({
                let (next_state, next_value) = env_step(
                    old(self).state,
                    old(self).curr_value as int,
                    sample as int,
                    old(self).attack_rate as int,
                    old(self).decay_rate as int,
                    old(self).onset_threshold as int,
                    old(self).reset_threshold as int,
                );
                final(self).state == next_state && final(self).curr_value == next_value
            }),
            result == final(self).curr_value,
            final(self).attack_rate == old(self).attack_rate,
            final(self).decay_rate == old(self).decay_rate,
            final(self).onset_threshold == old(self).onset_threshold,
            final(self).reset_threshold == old(self).reset_threshold,
    {
        match self.state {
            EnvelopeState::Waiting => {
                if sample > self.onset_threshold {
                    self.state = EnvelopeState::Attack;
                }
            },
            EnvelopeState::Attack => {
                self.curr_value = self.curr_value + self.attack_rate;
                if self.curr_value >= UNIT {
                    self.curr_value = UNIT;
                    self.state = EnvelopeState::Decay;
                }
            },
            EnvelopeState::Decay => {
                self.curr_value = self.curr_value - self.decay_rate;
                if self.curr_value <= 0 {
                    self.curr_value = 0;
                    self.state = EnvelopeState::Waiting;
                }
            },
            EnvelopeState::Final => {
                if sample <= self.reset_threshold {
                    self.state = EnvelopeState::Waiting;
                }
            },
        }
        self.curr_value
    }

    /// Overwrite all four parameters at once, clamping each into its
    /// documented domain; neither the stage nor the amplitude is touched.
    /// Returns whether any value had to be clamped.
    pub fn set_params(
        &mut self,
        attack_rate: i64,
        decay_rate: i64,
        onset_threshold: i64,
        reset_threshold: i64,
    ) -> (clamped: bool)
        ensures
            final(self).state == old(self).state,
            final(self).curr_value == old(self).curr_value,
            final(self).attack_rate == clamp_spec(attack_rate as int, 0, RATE_LIMIT as int),
            final(self).decay_rate == clamp_spec(decay_rate as int, 0, RATE_LIMIT as int),
            final(self).onset_threshold == clamp_spec(onset_threshold as int, 0, UNIT as int),
            final(self).reset_threshold == clamp_spec(reset_threshold as int, 0, UNIT as int),
            clamped == !(final(self).attack_rate == attack_rate
                && final(self).decay_rate == decay_rate
                && final(self).onset_threshold == onset_threshold
                && final(self).reset_threshold == reset_threshold),
    {
        self.attack_rate = clamp(attack_rate, 0, RATE_LIMIT);
        self.decay_rate = clamp(decay_rate, 0, RATE_LIMIT);
        self.onset_threshold = clamp(onset_threshold, 0, UNIT);
        self.reset_threshold = clamp(reset_threshold, 0, UNIT);
        self.attack_rate != attack_rate || self.decay_rate != decay_rate
            || self.onset_threshold != onset_threshold || self.reset_threshold != reset_threshold
    }

}

} // verus!
