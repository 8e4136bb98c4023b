//! Word timing: how the length of a synthesized sentence is shared out
//! among its words.
//!
//! A synthesizer says nothing about where words begin. The estimate here
//! weighs each word by its letters and digits and gives it that share of
//! the time that is still left, word after word.

use crate::chars::chars_of;
use crate::time::{saturate, Duration, NANOS_PER_MILLI, NANOS_PER_SEC};
use vstd::prelude::*;

verus! {

/// The longest single sleep, in milliseconds: cancellation is noticed
/// within this time.
pub const MIN_HIGHLIGHT_STEP_MS: u64 = 15;

/// The time assumed for one word where synthesis gave no usable audio, in
/// milliseconds.
pub const FALLBACK_WORD_MS: u64 = 120;

/// The longest single sleep, in nanoseconds.
pub open spec fn step_nanos() -> nat {
    (MIN_HIGHLIGHT_STEP_MS * NANOS_PER_MILLI) as nat
}

/// Whether `c` is a letter or a digit, as `char::is_alphanumeric` of the
/// standard library decides it.
pub uninterp spec fn is_alphanumeric_char(c: char) -> bool;

/// Whether `c` is a letter or a digit of any script.
///
/// Calls `char::is_alphanumeric`. Assumed: the answer depends on the
/// character alone.
#[verifier::external_body]
fn char_is_alphanumeric(c: char) -> (yes: bool)
    ensures
        yes == is_alphanumeric_char(c),
{
    c.is_alphanumeric()
}

/// The number of letters and digits in `word`.
pub open spec fn alphanumeric_count(word: Seq<char>) -> nat
    decreases word.len(),
{
    if word.len() == 0 {
        0
    } else {
        alphanumeric_count(word.drop_last()) + if is_alphanumeric_char(word.last()) {
            1nat
        } else {
            0nat
        }
    }
}

/// The weight of `word`: the number of its letters and digits, and at
/// least one, so that bare punctuation takes its time too.
pub open spec fn word_weight(word: Seq<char>) -> nat {
    if alphanumeric_count(word) == 0 {
        1
    } else {
        alphanumeric_count(word)
    }
}

/// The weight of one word.
pub fn weigh_word(word: &str) -> (weight: usize)
    ensures
        weight == word_weight(word@),
        weight >= 1,
{
    let chars = chars_of(word);
    let mut count: usize = 0;
    let mut i: usize = 0;
    while i < chars.len()
        invariant
            i <= chars.len(),
            count == alphanumeric_count(chars@.take(i as int)),
            count <= i,
        decreases chars.len() - i,
    {
        proof {
            assert(chars@.take(i + 1).drop_last() =~= chars@.take(i as int));
        }
        if char_is_alphanumeric(chars[i]) {
            count = count + 1;
        }
        i = i + 1;
    }
    proof {
        assert(chars@.take(i as int) =~= chars@);
    }
    if count == 0 {
        1
    } else {
        count
    }
}

/// The weights of a list of words.
pub open spec fn word_weights(words: Seq<String>) -> Seq<usize> {
    words.map_values(|w: String| word_weight(w@) as usize)
}

/// The weight of every word: the number of its letters and digits, and at
/// least one.
pub fn compute_word_weights(words: &Vec<String>) -> (weights: Vec<usize>)
    ensures
        weights@.len() == words@.len(),
        forall|i: int| 0 <= i < words@.len() ==> weights@[i] == word_weight(#[trigger] words@[i]@),
        forall|i: int| 0 <= i < weights@.len() ==> #[trigger] weights@[i] >= 1,
{
    let mut weights: Vec<usize> = Vec::new();
    let mut i: usize = 0;
    while i < words.len()
        invariant
            i <= words.len(),
            weights@.len() == i,
            forall|k: int| 0 <= k < i ==> weights@[k] == word_weight(#[trigger] words@[k]@),
            forall|k: int| 0 <= k < i ==> #[trigger] weights@[k] >= 1,
        decreases words.len() - i,
    {
        weights.push(weigh_word(words[i].as_str()));
        i = i + 1;
    }
    weights
}

/// The playing time of `samples` interleaved samples in `channels`
/// channels at `sample_rate`, in nanoseconds, rounded down. No channels
/// count as one, and so does a rate of zero.
pub open spec fn audio_nanos(samples: nat, channels: u16, sample_rate: u32) -> nat {
    let per_channel = samples / (if channels == 0 { 1nat } else { channels as nat });
    (per_channel * NANOS_PER_SEC / (if sample_rate == 0 { 1int } else { sample_rate as int })) as nat
}

/// The time that speaking a sentence is estimated to take: the playing
/// time of its audio, or, where that is nothing, a fixed time for each of
/// its words (for one word where it has none).
pub open spec fn estimated_nanos(
    samples: nat,
    channels: u16,
    sample_rate: u32,
    word_count: nat,
) -> u64 {
    if audio_nanos(samples, channels, sample_rate) > 0 {
        saturate(audio_nanos(samples, channels, sample_rate) as int)
    } else {
        saturate(
            FALLBACK_WORD_MS * NANOS_PER_MILLI * (if word_count == 0 { 1nat } else { word_count }),
        )
    }
}

/// The time that speaking a sentence is estimated to take, from the
/// shape of its audio and the number of its words.
pub fn estimate_sentence_duration(
    samples: usize,
    channels: u16,
    sample_rate: u32,
    word_count: usize,
) -> (estimate: Duration)
    ensures
        estimate.nanos == estimated_nanos(samples as nat, channels, sample_rate, word_count as nat),
        estimate.nanos > 0,
{
    let lanes: usize = if channels == 0 { 1 } else { channels as usize };
    let rate: u128 = if sample_rate == 0 { 1 } else { sample_rate as u128 };
    let per_channel: usize = samples / lanes;
    proof {
        assert((per_channel as int) * (NANOS_PER_SEC as int) <= (u64::MAX as int) * (
        NANOS_PER_SEC as int)) by (nonlinear_arith)
            requires
                0 <= per_channel <= u64::MAX,
        ;
    }
    let nanos: u128 = (per_channel as u128) * (NANOS_PER_SEC as u128) / rate;
    if nanos > 0 {
        if nanos > u64::MAX as u128 {
            Duration::from_nanos(u64::MAX)
        } else {
            Duration::from_nanos(nanos as u64)
        }
    } else {
        let count: u128 = if word_count == 0 { 1 } else { word_count as u128 };
        proof {
            assert(120_000_000 * (count as int) <= 120_000_000 * (u64::MAX as int))
                by (nonlinear_arith)
                requires
                    0 <= count <= u64::MAX,
            ;
        }
        let fallback: u128 = (FALLBACK_WORD_MS as u128) * (NANOS_PER_MILLI as u128) * count;
        if fallback > u64::MAX as u128 {
            Duration::from_nanos(u64::MAX)
        } else {
            Duration::from_nanos(fallback as u64)
        }
    }
}

/// `weight`, and one where it is zero.
pub open spec fn floored(weight: usize) -> nat {
    if weight == 0 {
        1
    } else {
        weight as nat
    }
}

/// The weights of the words from `from` on, added up.
pub open spec fn weight_sum(weights: Seq<usize>, from: int) -> nat
    decreases weights.len() - from,
{
    if from < 0 || from >= weights.len() {
        0
    } else {
        floored(weights[from]) + weight_sum(weights, from + 1)
    }
}

/// The time given to a word of weight `weight` when `remaining`
/// nanoseconds are left for words that weigh `remaining_weight` together:
/// its share by weight, rounded down; one sleep step where that is
/// nothing; and never more than is left.
pub open spec fn word_share(remaining: nat, weight: nat, remaining_weight: nat) -> nat {
    let raw = if remaining_weight == 0 {
        remaining
    } else {
        (remaining * weight / remaining_weight) as nat
    };
    let wanted = if raw == 0 {
        step_nanos()
    } else {
        raw
    };
    if wanted > remaining {
        remaining
    } else {
        wanted
    }
}

/// The times given to the words from `from` on, in order, when
/// `remaining` nanoseconds are left: each word takes its share of what
/// the words before it have left over.
pub open spec fn planned(weights: Seq<usize>, from: int, remaining: nat) -> Seq<nat>
    decreases weights.len() - from,
{
    if from < 0 || from >= weights.len() {
        Seq::empty()
    } else {
        let share = word_share(remaining, floored(weights[from]), weight_sum(weights, from));
        seq![share] + planned(weights, from + 1, (remaining - share) as nat)
    }
}

/// The time that is left over after the words from `from` on took theirs.
pub open spec fn left_over(weights: Seq<usize>, from: int, remaining: nat) -> nat
    decreases weights.len() - from,
{
    if from < 0 || from >= weights.len() {
        remaining
    } else {
        let share = word_share(remaining, floored(weights[from]), weight_sum(weights, from));
        left_over(weights, from + 1, (remaining - share) as nat)
    }
}

/// The sum of a list of times.
pub open spec fn total_of(times: Seq<nat>) -> nat
    decreases times.len(),
{
    if times.len() == 0 {
        0
    } else {
        times[0] + total_of(times.drop_first())
    }
}

/// The nanoseconds of a list of durations.
pub open spec fn nanos_of(durations: Seq<Duration>) -> Seq<nat> {
    durations.map_values(|d: Duration| d.nanos as nat)
}

/// The times given to the words of a sentence, and what is left over.
#[derive(Debug)]
pub struct Allocation {
    /// The time of each word from the first one spoken, in order.
    pub durations: Vec<Duration>,
    /// The time to wait after the last word.
    pub leftover: Duration,
}

/// The sum of all weights from `from` on fits in 128 bits.
proof fn lemma_weight_sum_bounded(weights: Seq<usize>, from: int)
    requires
        0 <= from <= weights.len(),
    ensures
        weight_sum(weights, from) <= (weights.len() - from) * 0x1_0000_0000_0000_0000,
    decreases weights.len() - from,
{
    if from < weights.len() {
        lemma_weight_sum_bounded(weights, from + 1);
        assert((weights.len() - from) * 0x1_0000_0000_0000_0000 == (weights.len() - (from + 1))
            * 0x1_0000_0000_0000_0000 + 0x1_0000_0000_0000_0000) by (nonlinear_arith);
    } else {
        assert((weights.len() - from) * 0x1_0000_0000_0000_0000 == 0) by (nonlinear_arith)
            requires
                weights.len() - from == 0,
        ;
    }
}

/// The weights of the words from `from` on, added up.
fn sum_weights(weights: &Vec<usize>, from: usize) -> (sum: u128)
    requires
        from <= weights.len(),
    ensures
        sum == weight_sum(weights@, from as int),
{
    let mut sum: u128 = 0;
    let mut i: usize = weights.len();
    while i > from
        invariant
            from <= i <= weights.len(),
            sum == weight_sum(weights@, i as int),
        decreases i,
    {
        i = i - 1;
        let weight: u128 = if weights[i] == 0 { 1 } else { weights[i] as u128 };
        proof {
            lemma_weight_sum_bounded(weights@, i as int);
            assert((weights@.len() - i) * 0x1_0000_0000_0000_0000 <= 0x1_0000_0000_0000_0000
                * 0x1_0000_0000_0000_0000) by (nonlinear_arith)
                requires
                    0 <= weights@.len() - i <= 0x1_0000_0000_0000_0000,
            ;
        }
        sum = sum + weight;
    }
    sum
}

/// The time given to one word: see [`word_share`].
pub fn share_of(remaining: Duration, weight: usize, remaining_weight: u128) -> (share: Duration)
    ensures
        share.nanos == word_share(remaining.nanos as nat, floored(weight), remaining_weight as nat),
        share.nanos <= remaining.nanos,
{
    let weight: u128 = if weight == 0 { 1 } else { weight as u128 };
    let raw: u128 = if remaining_weight == 0 {
        remaining.nanos as u128
    } else {
        proof {
            assert((remaining.nanos as int) * (weight as int) <= (u64::MAX as int) * (
            u64::MAX as int)) by (nonlinear_arith)
                requires
                    0 <= remaining.nanos <= u64::MAX,
                    0 <= weight <= u64::MAX,
            ;
        }
        (remaining.nanos as u128) * weight / remaining_weight
    };
    let wanted: u128 = if raw == 0 {
        (MIN_HIGHLIGHT_STEP_MS * NANOS_PER_MILLI) as u128
    } else {
        raw
    };
    if wanted > remaining.nanos as u128 {
        remaining
    } else {
        Duration::from_nanos(wanted as u64)
    }
}

/// Shares `total` out among the words from `start` on, by weight: each
/// word in turn takes its share of the time that the words before it have
/// left, so that rounding never adds up. Without words from `start` on,
/// all of `total` is left over.
pub fn allocate(weights: &Vec<usize>, start: usize, total: Duration) -> (plan: Allocation)
    ensures
        nanos_of(plan.durations@) == planned(weights@, start as int, total.nanos as nat),
        plan.leftover.nanos == left_over(weights@, start as int, total.nanos as nat),
{
    let mut durations: Vec<Duration> = Vec::new();
    if start >= weights.len() {
        proof {
            assert(nanos_of(durations@) =~= planned(weights@, start as int, total.nanos as nat));
        }
        return Allocation { durations, leftover: total };
    }
    let mut remaining_weight: u128 = sum_weights(weights, start);
    let mut remaining = total;
    let mut i: usize = start;
    while i < weights.len()
        invariant
            start <= i <= weights.len(),
            remaining_weight == weight_sum(weights@, i as int),
            planned(weights@, start as int, total.nanos as nat) == nanos_of(durations@) + planned(
                weights@,
                i as int,
                remaining.nanos as nat,
            ),
            left_over(weights@, start as int, total.nanos as nat) == left_over(
                weights@,
                i as int,
                remaining.nanos as nat,
            ),
        decreases weights.len() - i,
    {
        let share = share_of(remaining, weights[i], remaining_weight);
        let ghost before = durations@;
        let ghost rest = planned(weights@, i + 1, (remaining.nanos - share.nanos) as nat);
        durations.push(share);
        proof {
            assert(nanos_of(durations@) =~= nanos_of(before) + seq![share.nanos as nat]);
            assert(nanos_of(before) + (seq![share.nanos as nat] + rest) =~= (nanos_of(before)
                + seq![share.nanos as nat]) + rest);
        }
        let weight: u128 = if weights[i] == 0 { 1 } else { weights[i] as u128 };
        remaining_weight = remaining_weight - weight;
        remaining = remaining.saturating_sub(share);
        i = i + 1;
    }
    proof {
        assert(nanos_of(durations@) + Seq::<nat>::empty() =~= nanos_of(durations@));
    }
    Allocation { durations, leftover: remaining }
}

/// No time is lost or made up: the times of the words and what is left
/// over add up to the time that was shared out.
pub proof fn lemma_allocation_adds_up(weights: Seq<usize>, from: int, remaining: nat)
    requires
        0 <= from,
    ensures
        total_of(planned(weights, from, remaining)) + left_over(weights, from, remaining)
            == remaining,
        planned(weights, from, remaining).len() == if from < weights.len() {
            weights.len() - from
        } else {
            0
        },
    decreases weights.len() - from,
{
    if from < weights.len() {
        let share = word_share(remaining, floored(weights[from]), weight_sum(weights, from));
        let rest = planned(weights, from + 1, (remaining - share) as nat);
        lemma_allocation_adds_up(weights, from + 1, (remaining - share) as nat);
        assert((seq![share] + rest).drop_first() =~= rest);
    }
}

/// Where there is a word to speak, the words take all the time: the last
/// word's share is whatever the others left, and nothing is left over.
pub proof fn lemma_words_take_all(weights: Seq<usize>, from: int, remaining: nat)
    requires
        0 <= from < weights.len(),
    ensures
        left_over(weights, from, remaining) == 0,
    decreases weights.len() - from,
{
    let weight = floored(weights[from]);
    let share = word_share(remaining, weight, weight_sum(weights, from));
    if from + 1 < weights.len() {
        lemma_words_take_all(weights, from + 1, (remaining - share) as nat);
    } else {
        assert(weight_sum(weights, from + 1) == 0);
        assert(weight_sum(weights, from) == weight);
        assert(remaining * weight / weight == remaining) by (nonlinear_arith)
            requires
                weight > 0,
        ;
        assert(share == remaining);
        assert(left_over(weights, from + 1, 0) == 0);
    }
}

/// The next slice of a sleep of which `left` is left: one sleep step, or
/// all that is left where that is shorter.
pub fn sleep_slice(left: Duration) -> (slice: Duration)
    ensures
        slice.nanos == if left.nanos < step_nanos() {
            left.nanos as nat
        } else {
            step_nanos()
        },
        slice.nanos <= left.nanos,
        slice.nanos <= step_nanos(),
{
    let step: u64 = MIN_HIGHLIGHT_STEP_MS * NANOS_PER_MILLI;
    if left.nanos < step {
        left
    } else {
        Duration::from_nanos(step)
    }
}

} // verus!
