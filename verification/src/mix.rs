//! Channel conversion of interleaved 16-bit PCM.

use crate::level::whole_part;
use vstd::prelude::*;

verus! {

/// The sum of the samples.
pub open spec fn total(samples: Seq<i16>) -> int
    decreases samples.len(),
{
    if samples.len() == 0 {
        0
    } else {
        total(samples.drop_last()) + samples.last()
    }
}

/// The arithmetic mean of the samples of frame `i`, rounded towards zero.
pub open spec fn frame_mean(data: Seq<i16>, channels: int, i: int) -> i16 {
    whole_part(total(data.subrange(i * channels, (i + 1) * channels)), channels) as i16
}

/// The mono signal of interleaved frames: the mean of each whole frame.
/// Samples behind the last whole frame are dropped.
pub open spec fn downmixed(data: Seq<i16>, channels: int) -> Seq<i16> {
    Seq::new(((data.len() as int) / channels) as nat, |i: int| frame_mean(data, channels, i))
}

/// The interleaved signal of a mono one: each sample once per channel.
pub open spec fn upmixed(mono: Seq<i16>, channels: int) -> Seq<i16> {
    Seq::new((mono.len() * channels) as nat, |k: int| mono[k / channels])
}

proof fn lemma_total_bounds(samples: Seq<i16>)
    ensures
        -32768 * samples.len() <= total(samples) <= 32767 * samples.len(),
    decreases samples.len(),
{
    if samples.len() > 0 {
        lemma_total_bounds(samples.drop_last());
    }
}

proof fn lemma_mean_in_range(sum: int, n: int)
    requires
        n > 0,
        -32768 * n <= sum <= 32767 * n,
    ensures
        -32768 <= whole_part(sum, n) <= 32767,
{
    if sum >= 0 {
        assert(sum / n <= 32767) by (nonlinear_arith)
            requires
                n > 0,
                0 <= sum <= 32767 * n,
        ;
        assert(sum / n >= 0) by (nonlinear_arith)
            requires
                n > 0,
                0 <= sum,
        ;
    } else {
        assert((-sum) / n <= 32768) by (nonlinear_arith)
            requires
                n > 0,
                0 <= -sum <= 32768 * n,
        ;
        assert((-sum) / n >= 0) by (nonlinear_arith)
            requires
                n > 0,
                0 <= -sum,
        ;
    }
}

/// Down-mix interleaved frames of `channels` samples to mono.
pub fn downmix_to_mono(data: &[i16], channels: u16) -> (mono: Vec<i16>)
    requires
        channels > 0,
    ensures
        mono@ == downmixed(data@, channels as int),
{
    let ch: usize = channels as usize;
    let frames: usize = data.len() / ch;
    let mut mono: Vec<i16> = Vec::new();
    let mut i: usize = 0;
    while i < frames
        invariant
            i <= frames,
            ch == channels,
            ch > 0,
            frames == (data@.len() as int) / (ch as int),
            data@.len() <= usize::MAX,
            mono@.len() == i,
            forall|j: int| 0 <= j < i ==> mono@[j] == frame_mean(data@, ch as int, j),
        decreases frames - i,
    {
        proof {
            vstd::arithmetic::div_mod::lemma_fundamental_div_mod(data@.len() as int, ch as int);
            assert((i + 1) * ch <= frames * ch) by (nonlinear_arith)
                requires
                    i + 1 <= frames,
                    ch > 0,
            ;
            assert((i + 1) * ch == i * ch + ch) by (nonlinear_arith);
            assert(frames * ch == ch * frames) by (nonlinear_arith);
            assert(i * ch >= 0) by (nonlinear_arith);
        }
        let start: usize = i * ch;
        let ghost frame = data@.subrange(start as int, start + ch);
        let mut sum: i64 = 0;
        let mut c: usize = 0;
        assert(frame.subrange(0, 0) =~= Seq::<i16>::empty());
        while c < ch
            invariant
                c <= ch,
                ch <= 0xFFFF,
                start + ch <= data@.len() <= usize::MAX,
                frame == data@.subrange(start as int, start + ch),
                sum == total(frame.subrange(0, c as int)),
            decreases ch - c,
        {
            proof {
                lemma_total_bounds(frame.subrange(0, c as int));
                assert(frame.subrange(0, c + 1).drop_last() =~= frame.subrange(0, c as int));
            }
            sum = sum + data[start + c] as i64;
            c += 1;
        }
        proof {
            assert(frame.subrange(0, ch as int) =~= frame);
            lemma_total_bounds(frame);
            lemma_mean_in_range(sum as int, ch as int);
        }
        let mean: i64 = if sum >= 0 {
            sum / (ch as i64)
        } else {
            -((-sum) / (ch as i64))
        };
        mono.push(mean as i16);
        i += 1;
    }
    assert(mono@ =~= downmixed(data@, channels as int));
    mono
}

/// Up-mix mono to interleaved frames of `channels` samples.
pub fn upmix_from_mono(mono: &[i16], channels: u16) -> (data: Vec<i16>)
    ensures
        data@ == upmixed(mono@, channels as int),
{
    let ch: usize = channels as usize;
    let n: usize = mono.len();
    let mut data: Vec<i16> = Vec::new();
    let mut i: usize = 0;
    assert(0 * ch == 0) by (nonlinear_arith);
    while i < n
        invariant
            i <= n,
            n == mono@.len(),
            ch == channels,
            data@.len() == i * ch,
            forall|k: int| 0 <= k < data@.len() ==> data@[k] == mono@[k / (ch as int)],
        decreases n - i,
    {
        let s: i16 = mono[i];
        let mut c: usize = 0;
        while c < ch
            invariant
                c <= ch,
                i < n,
                n == mono@.len(),
                s == mono@[i as int],
                data@.len() == i * ch + c,
                forall|k: int| 0 <= k < data@.len() ==> data@[k] == mono@[k / (ch as int)],
            decreases ch - c,
        {
            proof {
                let k = (i * ch + c) as int;
                vstd::arithmetic::div_mod::lemma_fundamental_div_mod_converse_div(
                    k,
                    ch as int,
                    i as int,
                    c as int,
                );
                assert(ch * i == i * ch) by (nonlinear_arith);
            }
            data.push(s);
            c += 1;
        }
        proof {
            assert((i + 1) * ch == i * ch + ch) by (nonlinear_arith);
        }
        i += 1;
    }
    assert(data@ =~= upmixed(mono@, channels as int));
    data
}

proof fn lemma_total_of_copies(samples: Seq<i16>, s: i16)
    requires
        forall|k: int| 0 <= k < samples.len() ==> samples[k] == s,
    ensures
        total(samples) == samples.len() * s,
    decreases samples.len(),
{
    if samples.len() > 0 {
        lemma_total_of_copies(samples.drop_last(), s);
        assert((samples.len() - 1) * s + s == samples.len() * s) by (nonlinear_arith);
    } else {
        assert(0 * s == 0) by (nonlinear_arith);
    }
}

/// Channel conversion round trip: mixing a mono signal up to any number of
/// channels and down again gives the signal back, sample for sample.
pub proof fn lemma_upmix_then_downmix(mono: Seq<i16>, channels: int)
    requires
        channels > 0,
    ensures
        downmixed(upmixed(mono, channels), channels) == mono,
{
    let up = upmixed(mono, channels);
    let n = mono.len() as int;
    assert(up.len() == n * channels);
    assert((n * channels) / channels == n) by (nonlinear_arith)
        requires
            channels > 0,
            n >= 0,
    ;
    assert forall|i: int| 0 <= i < n implies frame_mean(up, channels, i) == mono[i] by {
        assert((i + 1) * channels == i * channels + channels) by (nonlinear_arith);
        assert((i + 1) * channels <= n * channels) by (nonlinear_arith)
            requires
                i + 1 <= n,
                channels > 0,
        ;
        assert(i * channels >= 0) by (nonlinear_arith)
            requires
                i >= 0,
                channels > 0,
        ;
        let frame = up.subrange(i * channels, (i + 1) * channels);
        assert forall|k: int| 0 <= k < frame.len() implies frame[k] == mono[i] by {
            vstd::arithmetic::div_mod::lemma_fundamental_div_mod_converse_div(
                i * channels + k,
                channels,
                i,
                k,
            );
            assert(channels * i == i * channels) by (nonlinear_arith);
        }
        lemma_total_of_copies(frame, mono[i]);
        let s = mono[i] as int;
        assert(frame.len() == channels);
        assert(total(frame) == channels * s);
        if s >= 0 {
            assert(channels * s >= 0) by (nonlinear_arith)
                requires
                    channels > 0,
                    s >= 0,
            ;
            assert((channels * s) / channels == s) by (nonlinear_arith)
                requires
                    channels > 0,
                    s >= 0,
            ;
        } else {
            assert(channels * s < 0) by (nonlinear_arith)
                requires
                    channels > 0,
                    s < 0,
            ;
            assert((-(channels * s)) / channels == -s) by (nonlinear_arith)
                requires
                    channels > 0,
                    s < 0,
            ;
        }
    }
    assert(downmixed(up, channels) =~= mono);
}

} // verus!
