//! Low-frequency wavetable oscillator.
//!
//! The oscillator owns one circular buffer holding exactly `sample_rate`
//! precomputed waveform samples for the current frequency, and a
//! fractional read index that advances by `freq` ticks per output sample,
//! wrapping once it passes `sample_rate` whole slots.  The table entries
//! themselves are supplied by the host (they are transcendental waveform
//! values, outside this core's integer domain); this module owns every
//! decision about storing, indexing, interpolating and regenerating them.

use vstd::prelude::*;

verus! {

use crate::fixed::UNIT;
use crate::ring_buffer::{RingBuffer, interp_at};

/// Largest accepted table length, so that a whole table span of
/// fractional index ticks stays far inside a 64-bit word.
pub const SAMPLE_RATE_LIMIT: usize = 1_000_000_000;

/// Frequencies closer than this (in `UNIT`-scaled hertz) count as equal:
/// `set_freq` does not rebuild the table for them.
pub const FREQ_EPSILON: i64 = 1_000;

/// Ghost model of an oscillator: the stored waveform table, the current
/// frequency, the table length and the fractional read position.
pub struct LfoView {
    pub table: Seq<i64>,
    pub freq: int,
    pub sample_rate: int,
    pub index: int,
}

pub struct LFO {
    buffer: RingBuffer<i64>,
    freq: i64,
    sample_rate: usize,
    index: i64,
}

/// One advance of the fractional index: add `freq` ticks, wrapping once
/// it exceeds `sample_rate` whole slots.
pub open spec fn lfo_index_step(index: int, freq: int, sample_rate: int) -> int {
    if index + freq > sample_rate * UNIT {
        index + freq - sample_rate * UNIT
    } else {
        index + freq
    }
}

/// The fractional index after `n` advances.
pub open spec fn lfo_index_after(index: int, freq: int, sample_rate: int, n: int) -> int
    decreases n,
{
    if n <= 0 {
        index
    } else {
        lfo_index_step(lfo_index_after(index, freq, sample_rate, n - 1), freq, sample_rate)
    }
}

/// The `n`-th sample an oscillator in state `v` emits: the interpolated
/// table value at the index reached after `n` advances.
pub open spec fn lfo_sample(v: LfoView, n: int) -> int {
    interp_at(v.table, lfo_index_after(v.index, v.freq, v.sample_rate, n))
}

/// State after emitting a block of `n` samples: only the index moves.
pub open spec fn lfo_after_block(v: LfoView, n: int) -> LfoView {
    LfoView {
        index: lfo_index_after(v.index, v.freq, v.sample_rate, n),
        ..v
    }
}

/// State after a frequency change: a request within `FREQ_EPSILON` of the
/// current frequency is a no-op; any other request stores the new
/// frequency and replaces the whole table, leaving the index untouched.
pub open spec fn set_freq_spec(v: LfoView, new_freq: int, table: Seq<i64>) -> LfoView {
    if -FREQ_EPSILON <= v.freq - new_freq <= FREQ_EPSILON {
        v
    } else {
        LfoView {
            freq: new_freq,
            table: table,
            sample_rate: v.sample_rate,
            index: v.index,
        }
    }
}

impl View for LFO {
    type V = LfoView;

    closed spec fn view(&self) -> LfoView {
        LfoView {
            table: self.buffer@,
            freq: self.freq as int,
            sample_rate: self.sample_rate as int,
            index: self.index as int,
        }
    }
}

/// Overwrite the whole table of `buffer` with `values`, slot by slot,
/// through advancing writes that wrap back to the start.
fn fill_table(buffer: &mut RingBuffer<i64>, values: &Vec<i64>)
    requires
        old(buffer).wf(),
        old(buffer).spec_capacity() == values@.len(),
        old(buffer).write_index() == 0,
    ensures
        final(buffer).wf(),
        final(buffer)@ == values@,
        final(buffer).spec_capacity() == old(buffer).spec_capacity(),
        final(buffer).read_index() == old(buffer).read_index(),
        final(buffer).write_index() == 0,
{
    let len = values.len();
    let mut i: usize = 0;
    while i < len
        invariant
            i <= len,
            len == values@.len(),
            buffer.wf(),
            buffer.spec_capacity() == len,
            buffer.read_index() == old(buffer).read_index(),
            buffer.write_index() == (if i < len { i as int } else { 0 }),
            buffer@.len() == len,
            forall|j: int| 0 <= j < i ==> buffer@[j] == values@[j],
        decreases len - i,
    {
        buffer.push(values[i]);
        i += 1;
        proof {
            if i < len {
                vstd::arithmetic::div_mod::lemma_small_mod(i as nat, len as nat);
            } else {
                vstd::arithmetic::div_mod::lemma_fundamental_div_mod_converse(
                    len as int, len as int, 1, 0);
            }
            vstd::arithmetic::div_mod::lemma_small_mod((i - 1) as nat, len as nat);
        }
    }
    proof {
        assert(buffer@ =~= values@);
    }
}

impl LFO {
    /// Validity: the buffer holds exactly `sample_rate` waveform samples
    /// in `[-UNIT, UNIT]`, the fractional index and the frequency stay
    /// inside one table span, and the whole span fits a 64-bit word.
    pub closed spec fn wf(&self) -> bool {
        &&& self.buffer.wf()
        &&& self.buffer.spec_capacity() == self.sample_rate as int
        &&& self.buffer.write_index() == 0
        &&& 1 <= self.sample_rate <= SAMPLE_RATE_LIMIT
        &&& forall|i: int|
            0 <= i < self.buffer@.len() ==> -UNIT <= #[trigger] self.buffer@[i] <= UNIT
        &&& 0 <= self.freq as int <= self.sample_rate as int * UNIT
        &&& 0 <= self.index as int <= self.sample_rate as int * UNIT
    }

    /// Fresh oscillator over `table`, the host-computed waveform of
    /// `freq` at `sample_rate`; the fractional index starts at zero.
    pub fn new(freq: i64, sample_rate: usize, table: &Vec<i64>) -> (result: Self)
        requires
            1 <= sample_rate <= SAMPLE_RATE_LIMIT,
            table@.len() == sample_rate,
            forall|i: int| 0 <= i < table@.len() ==> -UNIT <= #[trigger] table@[i] <= UNIT,
            0 <= freq <= sample_rate as int * UNIT,
        ensures
            result.wf(),
            result@.table == table@,
            result@.freq == freq,
            result@.sample_rate == sample_rate,
            result@.index == 0,
    {
        let mut buffer = RingBuffer::<i64>::new(sample_rate);
        fill_table(&mut buffer, table);
        LFO { buffer, freq, sample_rate, index: 0 }
    }

    /// Emit one oscillator sample per slot of `output`, overwriting it in
    /// place: each slot receives the interpolated table value at the
    /// current fractional index, which then advances by `freq`.
    pub fn get_block(&mut self, output: &mut Vec<i64>)
        requires
            old(self).wf(),
        ensures
            final(self).wf(),
            final(self)@ == lfo_after_block(old(self)@, old(output)@.len() as int),
            final(output)@.len() == old(output)@.len(),
            forall|i: int|
                0 <= i < final(output)@.len() ==> #[trigger] final(output)@[i] as int
                    == lfo_sample(old(self)@, i),
    {
        let len = output.len();
        let span: i64 = self.sample_rate as i64 * UNIT;
        let mut i: usize = 0;
        while i < len
            invariant
                i <= len,
                len == output@.len(),
                self.wf(),
                span == self.sample_rate as int * UNIT,
                self@.table == old(self)@.table,
                self@.freq == old(self)@.freq,
                self@.sample_rate == old(self)@.sample_rate,
                self@.index == lfo_index_after(
                    old(self)@.index,
                    old(self)@.freq,
                    old(self)@.sample_rate,
                    i as int,
                ),
                forall|j: int|
                    0 <= j < i ==> #[trigger] output@[j] as int == lfo_sample(old(self)@, j),
            decreases len - i,
        {
            let value = match self.buffer.get_frac(self.index) {
                Ok(v) => v,
                Err(_) => 0,
            };
            output.set(i, value);
            self.index = self.index + self.freq;
            if self.index > span {
                self.index = self.index - span;
            }
            i += 1;
        }
    }

    /// Change the oscillator's frequency.  A request within
    /// `FREQ_EPSILON` of the current one leaves everything untouched;
    /// otherwise the new frequency is stored and the table is replaced by
    /// `table`, the host-computed waveform of the new frequency.
    pub fn set_freq(&mut self, freq: i64, table: &Vec<i64>) -> (changed: bool)
        requires
            old(self).wf(),
            table@.len() == old(self)@.sample_rate,
            forall|i: int| 0 <= i < table@.len() ==> -UNIT <= #[trigger] table@[i] <= UNIT,
            0 <= freq <= old(self)@.sample_rate * UNIT,
        ensures
            final(self).wf(),
            final(self)@ == set_freq_spec(old(self)@, freq as int, table@),
            changed == !(-FREQ_EPSILON <= old(self)@.freq - freq <= FREQ_EPSILON),
    {
        let diff: i64 = self.freq - freq;
        if diff > FREQ_EPSILON || diff < -FREQ_EPSILON {
            self.freq = freq;
            self.buffer.reset();
            fill_table(&mut self.buffer, table);
            true
        } else {
            false
        }
    }
}

/// Idempotent frequency change: after one `set_freq` request the stored
/// frequency is within `FREQ_EPSILON` of the requested value, so a second
/// request for the same value changes nothing — the oscillator's
/// subsequent output is identical to leaving the second call out.
pub proof fn lemma_set_freq_idempotent(v: LfoView, new_freq: int, table: Seq<i64>)
    ensures
        set_freq_spec(set_freq_spec(v, new_freq, table), new_freq, table) == set_freq_spec(
            v,
            new_freq,
            table,
        ),
{
}

} // verus!
