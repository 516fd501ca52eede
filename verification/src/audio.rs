//! Audio preprocessing and frame extraction.
//!
//! Samples are carried as the raw bit patterns of the 32-bit samples the
//! decoder consumes; the all-zero pattern is the silence sample, so padding
//! is a matter of prepending and appending zeros.

use vstd::prelude::*;

verus! {

/// Number of samples in one decoder frame (80 ms at 24 kHz).
pub const FRAME_SAMPLES: usize = 1920;

/// Fixed sample rate of the decoder's audio input, in samples per second.
pub const SAMPLE_RATE: usize = 24000;

/// A run of `n` silence samples.
pub open spec fn silence(n: nat) -> Seq<u32> {
    Seq::new(n, |i: int| 0u32)
}

/// Pads the waveform so the decoder has enough lead-in and trail-out
/// context: `prefix_samples` zero samples are prepended (none when the
/// configured prefix duration is zero), and `delay_samples` plus one full
/// extra second of zero samples are appended, so the decoder's internal
/// delay drains fully and the last word's stop time is observable.
pub fn pad_waveform(pcm: &Vec<u32>, prefix_samples: usize, delay_samples: usize) -> (r: Vec<u32>)
    requires
        pcm@.len() + prefix_samples + delay_samples + SAMPLE_RATE <= usize::MAX,
    ensures
        r@ =~= silence(prefix_samples as nat) + pcm@ + silence(
            (delay_samples + SAMPLE_RATE) as nat,
        ),
        r@.len() == pcm@.len() + prefix_samples + delay_samples + SAMPLE_RATE,
{
    let mut out: Vec<u32> = Vec::new();
    let mut i: usize = 0;
    while i < prefix_samples
        invariant
            i <= prefix_samples,
            out@ =~= silence(i as nat),
        decreases prefix_samples - i,
    {
        out.push(0);
        i = i + 1;
    }
    let mut j: usize = 0;
    while j < pcm.len()
        invariant
            j <= pcm@.len(),
            pcm@.len() + prefix_samples + delay_samples + SAMPLE_RATE <= usize::MAX,
            out@ =~= silence(prefix_samples as nat) + pcm@.take(j as int),
        decreases pcm@.len() - j,
    {
        out.push(pcm[j]);
        j = j + 1;
    }
    let suffix: usize = delay_samples + SAMPLE_RATE;
    let mut k: usize = 0;
    while k < suffix
        invariant
            k <= suffix,
            suffix == delay_samples + SAMPLE_RATE,
            pcm@.len() + prefix_samples + suffix <= usize::MAX,
            out@ =~= silence(prefix_samples as nat) + pcm@ + silence(k as nat),
        decreases suffix - k,
    {
        out.push(0);
        k = k + 1;
    }
    out
}

/// Number of frames the waveform splits into: full frames of
/// `FRAME_SAMPLES`, plus one shorter frame for any remainder.
pub open spec fn spec_frame_count(len: nat) -> nat {
    if len % (FRAME_SAMPLES as nat) == 0 {
        len / (FRAME_SAMPLES as nat)
    } else {
        len / (FRAME_SAMPLES as nat) + 1
    }
}

/// One past the last sample index of frame `i`: the frame is cut short at
/// the end of the waveform.
pub open spec fn spec_frame_end(len: nat, i: nat) -> nat {
    if (i + 1) * (FRAME_SAMPLES as nat) <= len {
        (i + 1) * (FRAME_SAMPLES as nat)
    } else {
        len
    }
}

pub fn frame_count(len: usize) -> (n: usize)
    ensures
        n == spec_frame_count(len as nat),
{
    if len % FRAME_SAMPLES == 0 {
        len / FRAME_SAMPLES
    } else {
        len / FRAME_SAMPLES + 1
    }
}

/// A frame index below the frame count starts strictly inside the waveform.
proof fn lemma_frame_start_in_range(len: nat, i: nat)
    requires
        i < spec_frame_count(len),
    ensures
        i * (FRAME_SAMPLES as nat) < len,
{
    let f = FRAME_SAMPLES as nat;
    assert(i <= len / f) by {
        assert(spec_frame_count(len) <= len / f + 1);
    };
    assert((len / f) * f + len % f == len) by {
        vstd::arithmetic::div_mod::lemma_fundamental_div_mod(len as int, f as int);
    };
    if i == len / f {
        assert(len % f != 0);
        assert(i * f <= (len / f) * f) by (nonlinear_arith)
            requires i <= len / f;
    } else {
        assert(i + 1 <= len / f);
        assert((i + 1) * f <= (len / f) * f) by (nonlinear_arith)
            requires i + 1 <= len / f;
        assert(i * f < (i + 1) * f) by (nonlinear_arith)
            requires 0 < f;
    }
}

/// The samples of frame `i`: from `i * FRAME_SAMPLES` up to the frame end.
pub open spec fn spec_frame(pcm: Seq<u32>, i: nat) -> Seq<u32> {
    pcm.subrange(i as int * FRAME_SAMPLES as int, spec_frame_end(pcm.len(), i) as int)
}

/// Extracts frame `i` of the waveform: the samples from `i * FRAME_SAMPLES`
/// up to the frame end, which is `FRAME_SAMPLES` later or the end of the
/// waveform, whichever comes first.
pub fn frame_at(pcm: &Vec<u32>, i: usize) -> (f: Vec<u32>)
    requires
        (i as nat) < spec_frame_count(pcm@.len()),
    ensures
        f@ =~= spec_frame(pcm@, i as nat),
        0 < f@.len() <= FRAME_SAMPLES,
{
    let n: usize = pcm.len();
    proof {
        lemma_frame_start_in_range(n as nat, i as nat);
    }
    let start: usize = i * FRAME_SAMPLES;
    let end: usize = if n - start >= FRAME_SAMPLES {
        start + FRAME_SAMPLES
    } else {
        n
    };
    let mut f: Vec<u32> = Vec::new();
    let mut j: usize = start;
    while j < end
        invariant
            start <= j <= end,
            end <= pcm@.len(),
            f@ =~= pcm@.subrange(start as int, j as int),
        decreases end - j,
    {
        f.push(pcm[j]);
        j = j + 1;
    }
    f
}

/// The first `n` frames of the waveform, concatenated in order.
pub open spec fn frames_concat(pcm: Seq<u32>, n: nat) -> Seq<u32>
    decreases n,
{
    if n == 0 {
        Seq::<u32>::empty()
    } else {
        frames_concat(pcm, (n - 1) as nat) + spec_frame(pcm, (n - 1) as nat)
    }
}

/// How much of the waveform the first `n` frames cover.
spec fn covered_len(len: nat, n: nat) -> nat {
    if n == 0 {
        0
    } else {
        spec_frame_end(len, (n - 1) as nat)
    }
}

/// The first `n` frames cover exactly the first `covered_len` samples.
proof fn lemma_frames_prefix(pcm: Seq<u32>, n: nat)
    requires
        n <= spec_frame_count(pcm.len()),
    ensures
        frames_concat(pcm, n) =~= pcm.take(covered_len(pcm.len(), n) as int),
        covered_len(pcm.len(), n) <= pcm.len(),
    decreases n,
{
    let len = pcm.len();
    let f = FRAME_SAMPLES as nat;
    if n > 0 {
        lemma_frames_prefix(pcm, (n - 1) as nat);
        lemma_frame_start_in_range(len, (n - 1) as nat);
        if n >= 2 {
            // The previous frame ends where this one starts.
            assert((n - 2) as nat * f + f == (n - 1) as nat * f) by (nonlinear_arith)
                requires n >= 2;
            assert(covered_len(len, (n - 1) as nat) == (n - 1) as nat * f);
        }
    }
}

/// Law: the frames partition the waveform: all of them, concatenated in
/// order, rebuild it exactly.
pub proof fn lemma_frames_partition(pcm: Seq<u32>)
    ensures
        frames_concat(pcm, spec_frame_count(pcm.len())) =~= pcm,
{
    let len = pcm.len();
    let f = FRAME_SAMPLES as nat;
    let fc = spec_frame_count(len);
    lemma_frames_prefix(pcm, fc);
    if fc > 0 {
        // The last frame reaches the end of the waveform.
        assert((len / f) * f + len % f == len) by {
            vstd::arithmetic::div_mod::lemma_fundamental_div_mod(len as int, f as int);
        };
        if len % f == 0 {
            assert(((fc - 1) + 1) as nat * f == (len / f) * f) by (nonlinear_arith)
                requires fc == len / f && fc >= 1;
        } else {
            assert(((fc - 1) + 1) as nat * f == (len / f) * f + f) by (nonlinear_arith)
                requires fc == len / f + 1;
        }
        assert(covered_len(len, fc) == len);
    }
    assert(pcm.take(covered_len(len, fc) as int) =~= pcm);
}

} // verus!
