//! Splitting one synthesis result into short frames, each tagged with the
//! text position it roughly corresponds to.

use vstd::arithmetic::div_mod::{lemma_div_is_ordered, lemma_fundamental_div_mod_converse};
use vstd::prelude::*;

verus! {

/// The wall-clock length of one frame, in milliseconds.
pub const FRAME_MILLIS: u64 = 200;

/// A slice of synthesized audio with the text position estimated for its
/// first sample.
#[derive(Debug)]
pub struct AudioFrame {
    pub samples: Vec<i16>,
    pub sample_rate: u32,
    pub associated_text_idx: usize,
}

/// What an [`AudioFrame`] holds, as mathematical values.
pub struct AudioFrameView {
    pub samples: Seq<i16>,
    pub sample_rate: u32,
    pub associated_text_idx: usize,
}

impl View for AudioFrame {
    type V = AudioFrameView;

    open spec fn view(&self) -> AudioFrameView {
        AudioFrameView {
            samples: self.samples@,
            sample_rate: self.sample_rate,
            associated_text_idx: self.associated_text_idx,
        }
    }
}

impl AudioFrame {
    /// A copy of the frame.
    pub fn clone_frame(&self) -> (copy: AudioFrame)
        ensures
            copy@ == self@,
    {
        let samples = copy_range(&self.samples, 0, self.samples.len());
        proof {
            assert(samples@ =~= self.samples@);
        }
        AudioFrame {
            samples,
            sample_rate: self.sample_rate,
            associated_text_idx: self.associated_text_idx,
        }
    }
}

impl Clone for AudioFrame {
    fn clone(&self) -> (copy: AudioFrame)
        ensures
            copy@ == self@,
    {
        self.clone_frame()
    }
}

/// The views of a list of frames.
pub open spec fn frame_views(frames: Seq<AudioFrame>) -> Seq<AudioFrameView> {
    frames.map_values(|f: AudioFrame| f@)
}

/// `num / den` rounded to the nearest integer, halves upward.
pub open spec fn round_div(num: int, den: int) -> int {
    (2 * num + den) / (2 * den)
}

/// The number of samples in a full frame at `sample_rate`: 200 ms worth,
/// and at least one.
pub open spec fn frame_len(sample_rate: u32) -> int {
    if sample_rate * FRAME_MILLIS / 1000 < 1 {
        1
    } else {
        sample_rate * FRAME_MILLIS / 1000
    }
}

/// The text position estimated for the sample at `sample_offset`, by
/// linear interpolation over the whole result.
pub open spec fn text_offset(sample_offset: int, total_samples: int, text_len: int) -> int {
    round_div(sample_offset * text_len, total_samples)
}

/// The number of frames that `total_samples` samples are split into.
pub open spec fn frame_count(total_samples: int, sample_rate: u32) -> int {
    if total_samples <= 0 {
        1
    } else {
        (total_samples + frame_len(sample_rate) - 1) / frame_len(sample_rate)
    }
}

/// The frame with index `k` of the split of `samples`.
pub open spec fn frame_at(samples: Seq<i16>, sample_rate: u32, text_len: int, k: int) -> AudioFrameView {
    let len = frame_len(sample_rate);
    let total = samples.len() as int;
    let start = if k * len < total { k * len } else { total };
    let end = if (k + 1) * len < total { (k + 1) * len } else { total };
    AudioFrameView {
        samples: samples.subrange(start, end),
        sample_rate,
        associated_text_idx: if total == 0 {
            0
        } else {
            text_offset(start, total, text_len) as usize
        },
    }
}

/// The split of `samples` into frames: consecutive runs of
/// `frame_len(sample_rate)` samples, the last one possibly shorter; a
/// single empty frame where there are no samples.
pub open spec fn chunked(samples: Seq<i16>, sample_rate: u32, text_len: int) -> Seq<AudioFrameView> {
    Seq::new(
        frame_count(samples.len() as int, sample_rate) as nat,
        |k: int| frame_at(samples, sample_rate, text_len, k),
    )
}

/// The samples of a list of frames, one frame after the other.
pub open spec fn concat_samples(frames: Seq<AudioFrameView>) -> Seq<i16>
    decreases frames.len(),
{
    if frames.len() == 0 {
        Seq::empty()
    } else {
        concat_samples(frames.drop_last()) + frames.last().samples
    }
}

/// Rounded division computed from quotient and remainder agrees with
/// `round_div`.
proof fn lemma_round_div_by_parts(num: int, den: int)
    requires
        num >= 0,
        den > 0,
    ensures
        round_div(num, den) == num / den + if 2 * (num % den) >= den { 1int } else { 0int },
        0 <= num % den < den,
{
    let q = num / den;
    let r = num % den;
    vstd::arithmetic::div_mod::lemma_fundamental_div_mod(num, den);
    vstd::arithmetic::div_mod::lemma_mod_pos_bound(num, den);
    assert(num == den * q + r);
    let up = if 2 * r >= den { 1int } else { 0int };
    let rest = 2 * r + den - up * (2 * den);
    assert(0 <= rest < 2 * den);
    assert(2 * num + den == (q + up) * (2 * den) + rest) by (nonlinear_arith)
        requires
            num == den * q + r,
            rest == 2 * r + den - up * (2 * den),
    ;
    lemma_fundamental_div_mod_converse(2 * num + den, 2 * den, q + up, rest);
}

/// The estimated text position never decreases with the sample offset and
/// stays within the text.
pub proof fn lemma_text_offset_bounds(a: int, b: int, total_samples: int, text_len: int)
    requires
        0 <= a <= b < total_samples,
        0 <= text_len,
    ensures
        0 <= text_offset(a, total_samples, text_len) <= text_offset(b, total_samples, text_len)
            <= text_len,
{
    let n = total_samples;
    assert(0 <= a * text_len <= b * text_len <= (n - 1) * text_len) by (nonlinear_arith)
        requires
            0 <= a <= b <= n - 1,
            0 <= text_len,
    ;
    lemma_div_is_ordered(n, 2 * (a * text_len) + n, 2 * n);
    lemma_div_is_ordered(2 * (a * text_len) + n, 2 * (b * text_len) + n, 2 * n);
    assert(0 <= n / (2 * n)) by {
        vstd::arithmetic::div_mod::lemma_div_pos_is_pos(n, 2 * n);
    }
    // the upper bound: 2 * b * text_len + n < (text_len + 1) * 2n
    let top = 2 * (b * text_len) + n;
    assert(top < (text_len + 1) * (2 * n)) by (nonlinear_arith)
        requires
            top == 2 * (b * text_len) + n,
            b * text_len <= (n - 1) * text_len,
            n > 0,
            text_len >= 0,
    ;
    let q = top / (2 * n);
    vstd::arithmetic::div_mod::lemma_fundamental_div_mod(top, 2 * n);
    vstd::arithmetic::div_mod::lemma_mod_pos_bound(top, 2 * n);
    assert(q <= text_len) by (nonlinear_arith)
        requires
            top == (2 * n) * q + top % (2 * n),
            0 <= top % (2 * n),
            top < (text_len + 1) * (2 * n),
            n > 0,
    ;
}

/// `num / den` rounded to the nearest integer, halves upward.
fn rounded_quotient(num: u128, den: u128) -> (q: u128)
    requires
        0 < den <= u64::MAX,
        round_div(num as int, den as int) <= u128::MAX,
    ensures
        q == round_div(num as int, den as int),
{
    proof {
        lemma_round_div_by_parts(num as int, den as int);
    }
    let whole: u128 = num / den;
    let left: u128 = num % den;
    if 2 * left >= den {
        whole + 1
    } else {
        whole
    }
}

/// A copy of `samples[from..to]`.
pub fn copy_range(samples: &Vec<i16>, from: usize, to: usize) -> (out: Vec<i16>)
    requires
        from <= to <= samples.len(),
    ensures
        out@ == samples@.subrange(from as int, to as int),
{
    let mut out: Vec<i16> = Vec::new();
    let mut i: usize = from;
    while i < to
        invariant
            from <= i <= to <= samples.len(),
            out@ == samples@.subrange(from as int, i as int),
        decreases to - i,
    {
        out.push(samples[i]);
        proof {
            assert(out@ =~= samples@.subrange(from as int, i + 1));
        }
        i = i + 1;
    }
    out
}

/// The number of samples in a full frame at `sample_rate`.
pub fn samples_per_frame(sample_rate: u32) -> (len: usize)
    ensures
        len == frame_len(sample_rate),
        1 <= len <= u32::MAX,
{
    let wide: u64 = (sample_rate as u64) * FRAME_MILLIS / 1000;
    if wide < 1 {
        1
    } else {
        wide as usize
    }
}

/// Splits `samples` into frames of 200 ms at `sample_rate` (at least one
/// sample each), in order and without gaps; each frame carries the text
/// position interpolated for its first sample over a text of `text_len`
/// positions. Without samples the result is one empty frame at position 0.
pub fn chunk_audio_samples(samples: Vec<i16>, sample_rate: u32, text_len: usize) -> (frames: Vec<
    AudioFrame,
>)
    ensures
        frame_views(frames@) == chunked(samples@, sample_rate, text_len as int),
{
    let total: usize = samples.len();
    if total == 0 {
        let mut frames: Vec<AudioFrame> = Vec::new();
        frames.push(AudioFrame { samples, sample_rate, associated_text_idx: 0 });
        proof {
            assert(frames@[0]@.samples =~= samples@.subrange(0, 0));
            assert(frame_views(frames@) =~= chunked(samples@, sample_rate, text_len as int));
        }
        return frames;
    }
    let len: usize = samples_per_frame(sample_rate);
    let mut frames: Vec<AudioFrame> = Vec::new();
    let mut offset: usize = 0;
    proof {
        assert(0 * len == 0) by (nonlinear_arith);
        lemma_count_step(total as int, len as int, 0);
    }
    while offset < total
        invariant
            total == samples.len(),
            total > 0,
            len == frame_len(sample_rate),
            len >= 1,
            offset <= total,
            offset == total || offset == frames.len() * len,
            offset == total ==> frames.len() == frame_count(total as int, sample_rate),
            offset < total ==> frames.len() < frame_count(total as int, sample_rate),
            forall|k: int|
                0 <= k < frames.len() ==> (#[trigger] frames@[k])@ == frame_at(
                    samples@,
                    sample_rate,
                    text_len as int,
                    k,
                ),
        decreases total - offset,
    {
        let end: usize = if total - offset <= len {
            total
        } else {
            offset + len
        };
        let ghost k = frames.len() as int;
        proof {
            assert((k + 1) * len == k * len + len) by (nonlinear_arith);
            lemma_text_offset_bounds(offset as int, offset as int, total as int, text_len as int);
            assert((offset as int) * (text_len as int) <= (u64::MAX as int) * (u64::MAX as int))
                by (nonlinear_arith)
                requires
                    0 <= offset <= u64::MAX,
                    0 <= text_len <= u64::MAX,
            ;
            lemma_count_step(total as int, len as int, k);
        }
        let position: u128 = rounded_quotient((offset as u128) * (text_len as u128), total as u128);
        let chunk = copy_range(&samples, offset, end);
        frames.push(
            AudioFrame { samples: chunk, sample_rate, associated_text_idx: position as usize },
        );
        proof {
            assert(frames@[k]@ == frame_at(samples@, sample_rate, text_len as int, k));
        }
        offset = end;
    }
    proof {
        assert(frame_views(frames@) =~= chunked(samples@, sample_rate, text_len as int));
    }
    frames
}

/// With `k` full frames before an offset inside the samples, the split has
/// more than `k` frames, and exactly `k + 1` where the rest fits in one.
proof fn lemma_count_step(total: int, len: int, k: int)
    requires
        len >= 1,
        k >= 0,
        k * len < total,
    ensures
        k < (total + len - 1) / len,
        total - k * len <= len ==> (total + len - 1) / len == k + 1,
        total - k * len > len ==> k + 1 < (total + len - 1) / len,
{
    let top = total + len - 1;
    let q = top / len;
    vstd::arithmetic::div_mod::lemma_fundamental_div_mod(top, len);
    vstd::arithmetic::div_mod::lemma_mod_pos_bound(top, len);
    let r = top % len;
    assert(top == len * q + r);
    assert(k < q) by (nonlinear_arith)
        requires
            top == len * q + r,
            0 <= r < len,
            top == total + len - 1,
            k * len < total,
            len >= 1,
    ;
    if total - k * len <= len {
        assert(q <= k + 1) by (nonlinear_arith)
            requires
                top == len * q + r,
                0 <= r < len,
                top == total + len - 1,
                total - k * len <= len,
                len >= 1,
        ;
    } else {
        assert(k + 1 < q) by (nonlinear_arith)
            requires
                top == len * q + r,
                0 <= r < len,
                top == total + len - 1,
                total - k * len > len,
                len >= 1,
        ;
    }
}

/// The first `m` frames of the split hold the first `m` runs of samples.
proof fn lemma_concat_prefix(samples: Seq<i16>, sample_rate: u32, text_len: int, m: int)
    requires
        0 <= m <= frame_count(samples.len() as int, sample_rate),
    ensures
        concat_samples(chunked(samples, sample_rate, text_len).take(m)) == samples.subrange(
            0,
            if m * frame_len(sample_rate) < samples.len() {
                m * frame_len(sample_rate)
            } else {
                samples.len() as int
            },
        ),
    decreases m,
{
    let frames = chunked(samples, sample_rate, text_len);
    let len = frame_len(sample_rate);
    let total = samples.len() as int;
    if m == 0 {
        assert(0 * len == 0) by (nonlinear_arith);
        assert(concat_samples(frames.take(0)) =~= samples.subrange(0, 0));
    } else {
        lemma_concat_prefix(samples, sample_rate, text_len, m - 1);
        assert(frames.take(m).drop_last() =~= frames.take(m - 1));
        assert(frames.take(m).last() == frame_at(samples, sample_rate, text_len, m - 1));
        assert((m - 1 + 1) * len == (m - 1) * len + len) by (nonlinear_arith);
        assert((m - 1) * len >= 0) by (nonlinear_arith)
            requires
                m >= 1,
                len >= 1,
        ;
        let start = if (m - 1) * len < total { (m - 1) * len } else { total };
        let end = if m * len < total { m * len } else { total };
        assert(samples.subrange(0, start) + samples.subrange(start, end) =~= samples.subrange(
            0,
            end,
        ));
    }
}

/// The frames of a split partition the samples: laid end to end they are
/// the samples again, so their sample counts add up to the input length.
/// Their text positions never decrease from one frame to the next and lie
/// within `[0, text_len]`.
pub proof fn lemma_frames_partition(samples: Seq<i16>, sample_rate: u32, text_len: int)
    requires
        0 <= text_len <= usize::MAX,
    ensures
        concat_samples(chunked(samples, sample_rate, text_len)) == samples,
        concat_samples(chunked(samples, sample_rate, text_len)).len() == samples.len(),
        forall|i: int, j: int|
            #![trigger chunked(samples, sample_rate, text_len)[i], chunked(samples, sample_rate, text_len)[j]]
            0 <= i <= j < chunked(samples, sample_rate, text_len).len() ==> 0 <= chunked(
                samples,
                sample_rate,
                text_len,
            )[i].associated_text_idx <= chunked(
                samples,
                sample_rate,
                text_len,
            )[j].associated_text_idx <= text_len,
{
    let frames = chunked(samples, sample_rate, text_len);
    let len = frame_len(sample_rate);
    let total = samples.len() as int;
    let count = frame_count(total, sample_rate);
    if total > 0 {
        vstd::arithmetic::div_mod::lemma_fundamental_div_mod(total + len - 1, len);
        vstd::arithmetic::div_mod::lemma_mod_pos_bound(total + len - 1, len);
        let r = (total + len - 1) % len;
        assert(count * len >= total && count >= 1) by (nonlinear_arith)
            requires
                total + len - 1 == len * count + r,
                0 <= r < len,
                total > 0,
        ;
    } else {
        assert(1 * len >= total) by (nonlinear_arith)
            requires
                len >= 1,
                total == 0,
        ;
    }
    lemma_concat_prefix(samples, sample_rate, text_len, count);
    assert(frames.take(count) =~= frames);
    assert(samples.subrange(0, total) =~= samples);
    assert forall|i: int, j: int|
        #![trigger frames[i], frames[j]]
        0 <= i <= j < frames.len() implies 0 <= frames[i].associated_text_idx
        <= frames[j].associated_text_idx <= text_len by {
        if total > 0 {
            lemma_count_step_converse(total, len, i);
            lemma_count_step_converse(total, len, j);
            assert(i * len <= j * len) by (nonlinear_arith)
                requires
                    0 <= i <= j,
                    len >= 1,
            ;
            assert(0 <= i * len) by (nonlinear_arith)
                requires
                    0 <= i,
                    len >= 1,
            ;
            lemma_text_offset_bounds(i * len, j * len, total, text_len);
        }
    }
}

/// Every frame of a split starts inside the samples.
proof fn lemma_count_step_converse(total: int, len: int, k: int)
    requires
        len >= 1,
        total > 0,
        0 <= k < (total + len - 1) / len,
    ensures
        k * len < total,
{
    let top = total + len - 1;
    let q = top / len;
    vstd::arithmetic::div_mod::lemma_fundamental_div_mod(top, len);
    vstd::arithmetic::div_mod::lemma_mod_pos_bound(top, len);
    let r = top % len;
    assert(k * len < total) by (nonlinear_arith)
        requires
            top == len * q + r,
            0 <= r < len,
            top == total + len - 1,
            0 <= k < q,
            len >= 1,
    ;
}

/// Every frame of a split of samples is full but the last, which holds
/// what is left: at least one sample and at most a full frame.
pub proof fn lemma_frames_are_full(samples: Seq<i16>, sample_rate: u32, text_len: int)
    requires
        samples.len() > 0,
    ensures
        chunked(samples, sample_rate, text_len).len() >= 1,
        forall|k: int|
            0 <= k < chunked(samples, sample_rate, text_len).len() - 1 ==> (#[trigger] chunked(
                samples,
                sample_rate,
                text_len,
            )[k]).samples.len() == frame_len(sample_rate),
        1 <= chunked(samples, sample_rate, text_len).last().samples.len() <= frame_len(
            sample_rate,
        ),
        forall|k: int|
            0 <= k < chunked(samples, sample_rate, text_len).len() ==> (#[trigger] chunked(
                samples,
                sample_rate,
                text_len,
            )[k]).sample_rate == sample_rate,
{
    let frames = chunked(samples, sample_rate, text_len);
    let len = frame_len(sample_rate);
    let total = samples.len() as int;
    let count = frame_count(total, sample_rate);
    assert(0 * len == 0) by (nonlinear_arith);
    lemma_count_step(total, len, 0);
    assert forall|k: int| 0 <= k < count - 1 implies (#[trigger] frames[k]).samples.len()
        == len by {
        lemma_count_step_converse(total, len, k);
        lemma_count_step_converse(total, len, k + 1);
        assert((k + 1) * len == k * len + len) by (nonlinear_arith);
    }
    let last = count - 1;
    lemma_count_step_converse(total, len, last);
    lemma_count_step(total, len, last);
    assert((last + 1) * len == last * len + len) by (nonlinear_arith);
    assert(last * len >= 0) by (nonlinear_arith)
        requires
            last >= 0,
            len >= 1,
    ;
}

} // verus!
