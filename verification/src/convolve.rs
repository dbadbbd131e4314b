//! Block convolution engine.
//!
//! Applies a FIR coefficient set to one block of samples while carrying a
//! per-channel history of the last `num_taps - 1` raw input samples, so
//! that filtering a stream split into arbitrary blocks produces exactly
//! the same output as filtering it in one piece
//! ([`lemma_streaming_equivalence`]).

use vstd::prelude::*;

verus! {

use crate::fixed::{UNIT, div_trunc, div_unit, lemma_mul_abs_bound, lemma_div_trunc_bound};

/// Largest accepted coefficient count.
pub const MAX_TAPS: usize = 65_535;

/// Largest accepted magnitude of one FIR coefficient (`UNIT`-scaled).
pub const TAP_LIMIT: i64 = 8_000_000;

/// Largest accepted magnitude of one input sample (`UNIT`-scaled).
pub const SAMPLE_LIMIT: i64 = 2_000_000;

/// Every output sample of the engine stays within this bound.
pub const CONV_OUTPUT_LIMIT: i64 = 2_000_000_000_000;

/// Largest magnitude of one sample-times-coefficient product.
const TAP_PRODUCT_LIMIT: i64 = 16_000_000_000_000;

/// Largest magnitude a convolution accumulator can reach.
const ACC_LIMIT: i64 = 1_048_560_000_000_000_000;

/// Partial dot product: the sum over `k < j` of `s[i + k] * taps[k]`.
pub open spec fn dot_prefix(s: Seq<i64>, taps: Seq<i64>, i: int, j: int) -> int
    decreases j,
{
    if j <= 0 {
        0
    } else {
        dot_prefix(s, taps, i, j - 1) + s[i + j - 1] * taps[j - 1]
    }
}

/// Raw convolution sum at output position `i` over the combined signal
/// `s` (history followed by the block): `sum_k s[i + k] * taps[k]`.
pub open spec fn conv_at(s: Seq<i64>, taps: Seq<i64>, i: int) -> int {
    dot_prefix(s, taps, i, taps.len() as int)
}

/// One engine output sample: the convolution sum rescaled from the
/// doubled fixed-point scale back to `UNIT` scale.
pub open spec fn conv_sample(s: Seq<i64>, taps: Seq<i64>, i: int) -> int {
    div_trunc(conv_at(s, taps, i), UNIT as int)
}

/// Zero-initialized per-channel history for a `num_taps`-coefficient
/// filter: exactly `num_taps - 1` zeros.
pub fn init_history(num_taps: usize) -> (result: Vec<i64>)
    requires
        num_taps >= 1,
    ensures
        result@.len() == num_taps - 1,
        forall|i: int| 0 <= i < result@.len() ==> #[trigger] result@[i] == 0i64,
{
    let mut history: Vec<i64> = Vec::new();
    let mut k: usize = 0;
    while k < num_taps - 1
        invariant
            k <= num_taps - 1,
            history@.len() == k,
            forall|i: int| 0 <= i < k ==> #[trigger] history@[i] == 0i64,
        decreases num_taps - 1 - k,
    {
        history.push(0);
        k += 1;
    }
    history
}

/// Filter one block.  `previous_samples` must hold the `num_taps - 1`
/// samples carried over from the preceding block (zeros before the first
/// one); on return it holds the tail of the combined sequence — the raw
/// input tail, padded on the left with old history when the block is
/// shorter than the filter.
pub fn apply_fir_filter_blockwise(
    input: &Vec<i64>,
    taps: &Vec<i64>,
    previous_samples: &mut Vec<i64>,
) -> (output: Vec<i64>)
    requires
        1 <= taps@.len() <= MAX_TAPS,
        old(previous_samples)@.len() == taps@.len() - 1,
        forall|i: int|
            0 <= i < input@.len() ==> -SAMPLE_LIMIT <= #[trigger] input@[i] <= SAMPLE_LIMIT,
        forall|i: int|
            0 <= i < old(previous_samples)@.len() ==> -SAMPLE_LIMIT
                <= #[trigger] old(previous_samples)@[i] <= SAMPLE_LIMIT,
        forall|j: int| 0 <= j < taps@.len() ==> -TAP_LIMIT <= #[trigger] taps@[j] <= TAP_LIMIT,
    ensures
        output@.len() == input@.len(),
        forall|i: int|
            0 <= i < output@.len() ==> #[trigger] output@[i] as int == conv_sample(
                old(previous_samples)@ + input@,
                taps@,
                i,
            ),
        forall|i: int|
            0 <= i < output@.len() ==> -CONV_OUTPUT_LIMIT <= #[trigger] output@[i]
                <= CONV_OUTPUT_LIMIT,
        final(previous_samples)@ == (old(previous_samples)@ + input@).skip(input@.len() as int),
    {
    let num_taps = taps.len();
    let num_samples = input.len();
    let ghost combined_spec: Seq<i64> = old(previous_samples)@ + input@;

    // Combine previous and current samples.
    let mut combined: Vec<i64> = Vec::new();
    let mut k: usize = 0;
    while k < previous_samples.len()
        invariant
            k <= previous_samples@.len(),
            previous_samples@ == old(previous_samples)@,
            combined@ == old(previous_samples)@.take(k as int),
        decreases previous_samples@.len() - k,
    {
        combined.push(previous_samples[k]);
        k += 1;
        proof {
            assert(combined@ =~= old(previous_samples)@.take(k as int));
        }
    }
    let mut k: usize = 0;
    while k < num_samples
        invariant
            k <= num_samples,
            num_samples == input@.len(),
            previous_samples@ == old(previous_samples)@,
            combined@ == old(previous_samples)@ + input@.take(k as int),
        decreases num_samples - k,
    {
        combined.push(input[k]);
        k += 1;
        proof {
            assert(combined@ =~= old(previous_samples)@ + input@.take(k as int));
        }
    }
    proof {
        assert(combined@ =~= combined_spec);
    }
    let combined_len = combined.len();

    let mut output: Vec<i64> = Vec::new();
    let mut i: usize = 0;
    while i < num_samples
        invariant
            i <= num_samples,
            num_samples == input@.len(),
            num_taps == taps@.len(),
            1 <= num_taps <= MAX_TAPS,
            previous_samples@ == old(previous_samples)@,
            combined@ == combined_spec,
            combined_spec == old(previous_samples)@ + input@,
            combined_len == combined@.len(),
            combined@.len() == num_taps - 1 + num_samples,
            forall|x: int|
                0 <= x < combined@.len() ==> -SAMPLE_LIMIT <= #[trigger] combined@[x]
                    <= SAMPLE_LIMIT,
            forall|j: int|
                0 <= j < taps@.len() ==> -TAP_LIMIT <= #[trigger] taps@[j] <= TAP_LIMIT,
            output@.len() == i,
            forall|x: int|
                0 <= x < i ==> #[trigger] output@[x] as int == conv_sample(combined_spec, taps@, x),
            forall|x: int|
                0 <= x < i ==> -CONV_OUTPUT_LIMIT <= #[trigger] output@[x] <= CONV_OUTPUT_LIMIT,
        decreases num_samples - i,
    {
        let mut acc: i64 = 0;
        let mut j: usize = 0;
        while j < num_taps
            invariant
                j <= num_taps,
                i < num_samples,
                num_samples == input@.len(),
                num_taps == taps@.len(),
                1 <= num_taps <= MAX_TAPS,
                combined@ == combined_spec,
                combined_len == combined@.len(),
                combined@.len() == num_taps - 1 + num_samples,
                forall|x: int|
                    0 <= x < combined@.len() ==> -SAMPLE_LIMIT <= #[trigger] combined@[x]
                        <= SAMPLE_LIMIT,
                forall|x: int|
                    0 <= x < taps@.len() ==> -TAP_LIMIT <= #[trigger] taps@[x] <= TAP_LIMIT,
                acc as int == dot_prefix(combined_spec, taps@, i as int, j as int),
                -(j as int) * TAP_PRODUCT_LIMIT <= acc as int <= (j as int) * TAP_PRODUCT_LIMIT,
            decreases num_taps - j,
        {
            proof {
                lemma_acc_step(
                    acc as int,
                    combined@[i + j] as int,
                    taps@[j as int] as int,
                    j as int,
                );
            }
            acc = acc + combined[i + j] * taps[j];
            j += 1;
        }
        proof {
            lemma_acc_in_range(acc as int, num_taps as int);
            lemma_div_trunc_bound(acc as int, UNIT as int, CONV_OUTPUT_LIMIT as int);
        }
        let sample = div_unit(acc);
        output.push(sample);
        i += 1;
    }

    // Carry the tail of the combined sequence into the next block.
    let mut new_history: Vec<i64> = Vec::new();
    let mut k: usize = 0;
    while k < num_taps - 1
        invariant
            k <= num_taps - 1,
            num_taps == taps@.len(),
            num_samples == input@.len(),
            combined@ == combined_spec,
            combined_len == combined@.len(),
            combined@.len() == num_taps - 1 + num_samples,
            new_history@.len() == k,
            forall|x: int|
                0 <= x < k ==> #[trigger] new_history@[x] == combined_spec[num_samples + x],
        decreases num_taps - 1 - k,
    {
        new_history.push(combined[num_samples + k]);
        k += 1;
    }
    *previous_samples = new_history;
    proof {
        assert(final(previous_samples)@ =~= combined_spec.skip(input@.len() as int));
    }
    output
}

proof fn lemma_acc_step(acc: int, a: int, t: int, j: int)
    requires
        -SAMPLE_LIMIT <= a <= SAMPLE_LIMIT,
        -TAP_LIMIT <= t <= TAP_LIMIT,
        0 <= j < MAX_TAPS,
        -j * TAP_PRODUCT_LIMIT <= acc <= j * TAP_PRODUCT_LIMIT,
    ensures
        -(j + 1) * TAP_PRODUCT_LIMIT <= acc + a * t <= (j + 1) * TAP_PRODUCT_LIMIT,
        i64::MIN < acc + a * t < i64::MAX,
{
    lemma_mul_abs_bound(a, t, SAMPLE_LIMIT as int, TAP_LIMIT as int);
    assert((j + 1) * TAP_PRODUCT_LIMIT == j * TAP_PRODUCT_LIMIT + TAP_PRODUCT_LIMIT)
        by (nonlinear_arith);
    lemma_acc_in_range(acc + a * t, j + 1);
}

proof fn lemma_acc_in_range(acc: int, n: int)
    requires
        0 <= n <= MAX_TAPS,
        -n * TAP_PRODUCT_LIMIT <= acc <= n * TAP_PRODUCT_LIMIT,
    ensures
        -ACC_LIMIT <= acc <= ACC_LIMIT,
{
    assert(n * TAP_PRODUCT_LIMIT <= (MAX_TAPS as int) * TAP_PRODUCT_LIMIT) by (nonlinear_arith)
        requires 0 <= n <= MAX_TAPS as int;
}

proof fn lemma_dot_prefix_shift(s: Seq<i64>, taps: Seq<i64>, k: int, i: int, j: int)
    requires
        0 <= k <= s.len(),
        0 <= i,
        0 <= j <= taps.len(),
        k + i + j <= s.len(),
    ensures
        dot_prefix(s.skip(k), taps, i, j) == dot_prefix(s, taps, k + i, j),
    decreases j,
{
    if j > 0 {
        lemma_dot_prefix_shift(s, taps, k, i, j - 1);
    }
}

proof fn lemma_dot_prefix_agree(s1: Seq<i64>, s2: Seq<i64>, taps: Seq<i64>, i: int, j: int)
    requires
        0 <= i,
        0 <= j <= taps.len(),
        i + j <= s1.len(),
        i + j <= s2.len(),
        forall|x: int| i <= x < i + j ==> s1[x] == #[trigger] s2[x],
    ensures
        dot_prefix(s1, taps, i, j) == dot_prefix(s2, taps, i, j),
    decreases j,
{
    if j > 0 {
        lemma_dot_prefix_agree(s1, s2, taps, i, j - 1);
    }
}

/// Streaming equivalence: filtering `first + second` in one call over a
/// carried history produces, position for position, the outputs of
/// filtering `first` and then `second` in two calls, with the history the
/// engine carries between them — and both routes leave the same history
/// behind.  Applied at every split point, any partition of a signal into
/// non-empty blocks filters exactly as the whole signal does.
pub proof fn lemma_streaming_equivalence(
    history: Seq<i64>,
    first: Seq<i64>,
    second: Seq<i64>,
    taps: Seq<i64>,
)
    requires
        taps.len() >= 1,
        history.len() == taps.len() - 1,
    ensures
        forall|i: int|
            0 <= i < first.len() ==> conv_sample(history + (first + second), taps, i)
                == conv_sample(history + first, taps, i),
        forall|i: int|
            0 <= i < second.len() ==> conv_sample(history + (first + second), taps, first.len()
                + i) == conv_sample(
                ((history + first).skip(first.len() as int)) + second,
                taps,
                i,
            ),
        (history + (first + second)).skip((first + second).len() as int) == (((history
            + first).skip(first.len() as int)) + second).skip(second.len() as int),
{
    let t = taps.len() as int;
    let l1 = first.len() as int;
    let l2 = second.len() as int;
    let whole = history + (first + second);
    let front = history + first;
    let carried = front.skip(l1) + second;

    assert(carried =~= whole.skip(l1));

    assert forall|i: int| 0 <= i < l1 implies conv_sample(whole, taps, i) == conv_sample(
        front,
        taps,
        i,
    ) by {
        assert forall|x: int| i <= x < i + t implies whole[x] == #[trigger] front[x] by {}
        lemma_dot_prefix_agree(whole, front, taps, i, t);
    }

    assert forall|i: int| 0 <= i < l2 implies conv_sample(whole, taps, l1 + i) == conv_sample(
        carried,
        taps,
        i,
    ) by {
        lemma_dot_prefix_shift(whole, taps, l1, i, t);
        assert(conv_at(whole.skip(l1), taps, i) == conv_at(whole, taps, l1 + i));
        lemma_dot_prefix_agree(whole.skip(l1), carried, taps, i, t);
    }

    assert(whole.skip(l1 + l2) =~= carried.skip(l2));
}

/// The outputs of one engine call on `block` over carried history `h`.
pub open spec fn conv_outputs(h: Seq<i64>, block: Seq<i64>, taps: Seq<i64>) -> Seq<int> {
    Seq::new(block.len(), |i: int| conv_sample(h + block, taps, i))
}

/// The history one engine call on `block` leaves behind.
pub open spec fn next_history(h: Seq<i64>, block: Seq<i64>) -> Seq<i64> {
    (h + block).skip(block.len() as int)
}

/// The concatenated outputs of feeding `blocks` through the engine one
/// after another, carrying the history between calls.
pub open spec fn stream_outputs(h: Seq<i64>, blocks: Seq<Seq<i64>>, taps: Seq<i64>) -> Seq<int>
    decreases blocks.len(),
{
    if blocks.len() == 0 {
        Seq::empty()
    } else {
        conv_outputs(h, blocks.first(), taps) + stream_outputs(
            next_history(h, blocks.first()),
            blocks.drop_first(),
            taps,
        )
    }
}

/// The history left after feeding `blocks` through the engine in turn.
pub open spec fn stream_history(h: Seq<i64>, blocks: Seq<Seq<i64>>) -> Seq<i64>
    decreases blocks.len(),
{
    if blocks.len() == 0 {
        h
    } else {
        stream_history(next_history(h, blocks.first()), blocks.drop_first())
    }
}

/// Streaming equivalence over any partition: feeding a signal through the
/// engine split into any sequence of blocks yields exactly the outputs,
/// and exactly the final history, of one call over the whole signal.
pub proof fn lemma_streaming_equivalence_blocks(
    h: Seq<i64>,
    blocks: Seq<Seq<i64>>,
    taps: Seq<i64>,
)
    requires
        taps.len() >= 1,
        h.len() == taps.len() - 1,
    ensures
        stream_outputs(h, blocks, taps) == conv_outputs(h, blocks.flatten(), taps),
        stream_history(h, blocks) == next_history(h, blocks.flatten()),
    decreases blocks.len(),
{
    if blocks.len() == 0 {
        assert(blocks.flatten() =~= Seq::<i64>::empty());
        assert(h + Seq::<i64>::empty() =~= h);
        assert(conv_outputs(h, Seq::<i64>::empty(), taps) =~= Seq::<int>::empty());
        assert(next_history(h, Seq::<i64>::empty()) =~= h);
    } else {
        let head = blocks.first();
        let rest = blocks.drop_first();
        let carried = next_history(h, head);
        let tail_signal = rest.flatten();
        assert(blocks.flatten() == head + tail_signal);
        assert(carried.len() == h.len());
        lemma_streaming_equivalence_blocks(carried, rest, taps);
        lemma_streaming_equivalence(h, head, tail_signal, taps);
        assert(conv_outputs(h, head + tail_signal, taps) =~= conv_outputs(h, head, taps)
            + conv_outputs(carried, tail_signal, taps)) by {
            assert forall|i: int| 0 <= i < head.len() + tail_signal.len() implies conv_outputs(
                h,
                head + tail_signal,
                taps,
            )[i] == (conv_outputs(h, head, taps) + conv_outputs(carried, tail_signal, taps))[i] by {
                if i < head.len() {
                    assert(conv_sample(h + (head + tail_signal), taps, i) == conv_sample(
                        h + head,
                        taps,
                        i,
                    ));
                } else {
                    assert(conv_sample(h + (head + tail_signal), taps, head.len() + (i
                        - head.len())) == conv_sample(carried + tail_signal, taps, i - head.len()));
                }
            }
        }
        assert(next_history(h, head + tail_signal) == next_history(carried, tail_signal));
    }
}

} // verus!
