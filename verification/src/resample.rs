//! Linear-interpolation resampling of mono 16-bit PCM.
//!
//! The resampler keeps the previous source sample and a phase: the
//! position of the next output sample between the previous source sample
//! and the current one, as a fraction of one source sample. Each output
//! sample advances the phase by `from_rate / to_rate`; a phase of one or
//! more moves on to the next source sample. The phase is kept exactly, as a
//! count of `1 / to_rate` steps, so no rounding ever accumulates.

use crate::level::clamp_sample;
use crate::level::whole_part;
use crate::negotiate::TARGET_RATE;
use vstd::prelude::*;

verus! {

/// The state of a resampler. The phase is `phase / to_rate`.
pub struct ResamplerView {
    pub from_rate: u32,
    pub to_rate: u32,
    pub phase: u64,
    pub prev: i16,
}

impl ResamplerView {
    /// Both rates are positive, and the phase is what the resampler leaves
    /// behind: less than `from_rate / to_rate`.
    pub open spec fn valid(self) -> bool {
        self.from_rate > 0 && self.to_rate > 0 && self.phase < self.from_rate
    }
}

/// The sample at `phase / to` of the way from `prev` to `cur`.
pub open spec fn interpolated(prev: i16, cur: i16, phase: int, to: int) -> i16 {
    clamp_sample(whole_part(prev * to + (cur - prev) * phase, to))
}

/// The number of output samples that one source sample brings: as many
/// steps of `from` as it takes the phase to reach `to`.
pub open spec fn emitted_count(phase: int, from: int, to: int) -> int {
    if phase >= to {
        0
    } else {
        (to - phase + from - 1) / from
    }
}

/// The output samples that the source sample `cur` brings.
pub open spec fn sample_output(s: ResamplerView, cur: i16) -> Seq<i16> {
    Seq::new(
        emitted_count(s.phase as int, s.from_rate as int, s.to_rate as int) as nat,
        |k: int| interpolated(s.prev, cur, s.phase + k * s.from_rate, s.to_rate as int),
    )
}

/// The state after the source sample `cur`.
pub open spec fn after_sample(s: ResamplerView, cur: i16) -> ResamplerView {
    ResamplerView {
        phase: (s.phase + emitted_count(s.phase as int, s.from_rate as int, s.to_rate as int)
            * s.from_rate - s.to_rate) as u64,
        prev: cur,
        ..s
    }
}

/// The state after a run of source samples, and the output they bring.
pub open spec fn resampled(s: ResamplerView, input: Seq<i16>) -> (ResamplerView, Seq<i16>)
    decreases input.len(),
{
    if input.len() == 0 {
        (s, Seq::empty())
    } else {
        let before = resampled(s, input.drop_last());
        (after_sample(before.0, input.last()), before.1 + sample_output(before.0, input.last()))
    }
}

proof fn lemma_emitted_count(phase: int, from: int, to: int)
    requires
        0 <= phase,
        from > 0,
        to > 0,
    ensures
        emitted_count(phase, from, to) >= 0,
        phase + emitted_count(phase, from, to) * from >= to,
        phase + emitted_count(phase, from, to) * from - to < from || (phase >= to && phase - to
            < phase),
        phase < to ==> phase + (emitted_count(phase, from, to) - 1) * from < to,
        phase >= to ==> emitted_count(phase, from, to) == 0,
{
    if phase < to {
        let x = to - phase + from - 1;
        let c = x / from;
        vstd::arithmetic::div_mod::lemma_fundamental_div_mod(x, from);
        vstd::arithmetic::div_mod::lemma_mod_bound(x, from);
        assert(from * c == c * from) by (nonlinear_arith);
        assert((c - 1) * from == c * from - from) by (nonlinear_arith);
        assert(c >= 0) by (nonlinear_arith)
            requires
                x >= 0,
                from > 0,
                c == x / from,
        ;
    } else {
        assert(0 * from == 0) by (nonlinear_arith);
    }
}

/// `k` steps are the emitted count where they are the first to reach `to`.
proof fn lemma_count_is(phase: int, from: int, to: int, k: int)
    requires
        0 <= phase,
        from > 0,
        to > 0,
        k >= 0,
        phase + k * from >= to,
        k > 0 ==> phase + (k - 1) * from < to,
    ensures
        emitted_count(phase, from, to) == k,
{
    if phase < to {
        assert(k > 0) by (nonlinear_arith)
            requires
                phase < to,
                phase + k * from >= to,
                k >= 0,
        ;
        let x = to - phase + from - 1;
        assert((k - 1) * from == k * from - from) by (nonlinear_arith);
        let r = x - k * from;
        assert(from * k == k * from) by (nonlinear_arith);
        vstd::arithmetic::div_mod::lemma_fundamental_div_mod_converse_div(x, from, k, r);
    } else {
        assert(k == 0) by (nonlinear_arith)
            requires
                phase >= to,
                k > 0 ==> phase + (k - 1) * from < to,
                k >= 0,
                from > 0,
        ;
    }
}

/// Resampler length. However the input is cut into calls, the output of a
/// resampler in a valid state is within one sample of the ideal
/// `len * to_rate / from_rate`: the difference, in units of `1 / from_rate`
/// samples, is the change of the phase, which stays below `from_rate`. So
/// the deviation never grows, and the drift per sample goes to zero.
pub proof fn lemma_resampled_length(s: ResamplerView, input: Seq<i16>)
    requires
        s.valid(),
    ensures
        resampled(s, input).0.valid(),
        resampled(s, input).0.from_rate == s.from_rate,
        resampled(s, input).0.to_rate == s.to_rate,
        resampled(s, input).1.len() * s.from_rate == input.len() * s.to_rate + resampled(
            s,
            input,
        ).0.phase - s.phase,
        -(s.from_rate as int) < resampled(s, input).1.len() * s.from_rate - input.len() * s.to_rate
            < s.from_rate,
    decreases input.len(),
{
    if input.len() > 0 {
        lemma_resampled_length(s, input.drop_last());
        let before = resampled(s, input.drop_last());
        let from = s.from_rate as int;
        let to = s.to_rate as int;
        let c = emitted_count(before.0.phase as int, from, to);
        lemma_emitted_count(before.0.phase as int, from, to);
        let n = before.1.len() as int;
        let l = input.len() as int;
        assert((n + c) * from == n * from + c * from) by (nonlinear_arith);
        assert(l * to == (l - 1) * to + to) by (nonlinear_arith);
    } else {
        assert(0 * s.from_rate == 0 && 0 * s.to_rate == 0) by (nonlinear_arith);
    }
}

/// Resampling a run of samples in two calls gives what one call gives.
pub proof fn lemma_resampled_in_parts(s: ResamplerView, first: Seq<i16>, second: Seq<i16>)
    ensures
        resampled(s, first + second).0 == resampled(resampled(s, first).0, second).0,
        resampled(s, first + second).1 == resampled(s, first).1 + resampled(
            resampled(s, first).0,
            second,
        ).1,
    decreases second.len(),
{
    if second.len() == 0 {
        assert(first + second =~= first);
        assert(resampled(s, first).1 + Seq::<i16>::empty() =~= resampled(s, first).1);
    } else {
        lemma_resampled_in_parts(s, first, second.drop_last());
        assert((first + second).drop_last() =~= first + second.drop_last());
        assert((first + second).last() == second.last());
        let mid = resampled(s, first);
        let head = resampled(mid.0, second.drop_last());
        assert(mid.1 + (head.1 + sample_output(head.0, second.last())) =~= (mid.1 + head.1)
            + sample_output(head.0, second.last()));
    }
}

/// Simple linear-interpolation resampler from `from_rate` to `to_rate`.
pub struct LinearResampler {
    from_rate: u32,
    to_rate: u32,
    phase: u64,
    prev: i16,
}

impl View for LinearResampler {
    type V = ResamplerView;

    closed spec fn view(&self) -> ResamplerView {
        ResamplerView {
            from_rate: self.from_rate,
            to_rate: self.to_rate,
            phase: self.phase,
            prev: self.prev,
        }
    }
}

fn interpolate(prev: i16, cur: i16, phase: u64, to: u32) -> (s: i16)
    requires
        to > 0,
        phase < to,
    ensures
        s == interpolated(prev, cur, phase as int, to as int),
{
    proof {
        assert(-32768 * 0xFFFF_FFFF <= prev * to <= 32767 * 0xFFFF_FFFF) by (nonlinear_arith)
            requires
                -32768 <= prev <= 32767,
                0 < to <= 0xFFFF_FFFF,
        ;
        assert(-65535 * 0xFFFF_FFFF <= (cur - prev) * phase <= 65535 * 0xFFFF_FFFF)
            by (nonlinear_arith)
            requires
                -65535 <= cur - prev <= 65535,
                0 <= phase <= 0xFFFF_FFFF,
        ;
    }
    let num: i64 = (prev as i64) * (to as i64) + ((cur as i64) - (prev as i64)) * (phase as i64);
    let den: i64 = to as i64;
    if num >= 0 {
        let whole: i64 = num / den;
        if whole > 32767 {
            32767
        } else {
            whole as i16
        }
    } else {
        let whole: i64 = (-num) / den;
        if whole > 32767 {
            -32767
        } else {
            (-whole) as i16
        }
    }
}

impl LinearResampler {
    #[verifier::type_invariant]
    spec fn well_formed(&self) -> bool {
        self.from_rate > 0 && self.to_rate > 0 && self.phase < self.from_rate
    }

    /// A resampler at the start of a stream: silence before it, phase zero.
    pub fn new(from_rate: u32, to_rate: u32) -> (r: LinearResampler)
        requires
            from_rate > 0,
            to_rate > 0,
        ensures
            r@ == (ResamplerView { from_rate, to_rate, phase: 0, prev: 0 }),
            r@.valid(),
    {
        LinearResampler { from_rate, to_rate, phase: 0, prev: 0 }
    }

    /// Resample a mono buffer.
    pub fn process(&mut self, input: &[i16]) -> (out: Vec<i16>)
        ensures
            old(self)@.valid(),
            final(self)@ == resampled(old(self)@, input@).0,
            out@ == resampled(old(self)@, input@).1,
    {
        proof {
            use_type_invariant(&*self);
        }
        let from: u64 = self.from_rate as u64;
        let to: u64 = self.to_rate as u64;
        let to_rate: u32 = self.to_rate;
        let ghost start = self@;
        let mut phase: u64 = self.phase;
        let mut prev: i16 = self.prev;
        let mut out: Vec<i16> = Vec::new();
        let n: usize = input.len();
        let mut i: usize = 0;
        assert(input@.subrange(0, 0) =~= Seq::<i16>::empty());
        while i < n
            invariant
                i <= n,
                n == input@.len(),
                start.valid(),
                from == start.from_rate,
                to == start.to_rate,
                to_rate == start.to_rate,
                resampled(start, input@.subrange(0, i as int)).0 == (ResamplerView {
                    phase,
                    prev,
                    ..start
                }),
                resampled(start, input@.subrange(0, i as int)).1 == out@,
                phase < from,
            decreases n - i,
        {
            let cur: i16 = input[i];
            let ghost state = ResamplerView { phase, prev, ..start };
            let ghost entry: int = phase as int;
            let ghost before = out@;
            let ghost mut k: int = 0;
            proof {
                assert(input@.subrange(0, i + 1).drop_last() =~= input@.subrange(0, i as int));
                assert(0 * from == 0) by (nonlinear_arith);
            }
            while phase < to
                invariant
                    from > 0,
                    to > 0,
                    to == to_rate,
                    from <= 0xFFFF_FFFF,
                    to <= 0xFFFF_FFFF,
                    k >= 0,
                    0 <= entry < from,
                    phase == entry + k * from,
                    k > 0 ==> entry + (k - 1) * from < to,
                    out@.len() == before.len() + k,
                    forall|j: int| 0 <= j < before.len() ==> out@[j] == before[j],
                    forall|j: int|
                        before.len() <= j < out@.len() ==> #[trigger] out@[j] == interpolated(
                            prev,
                            cur,
                            entry + (j - before.len()) * from,
                            to as int,
                        ),
                decreases to + from - phase,
            {
                out.push(interpolate(prev, cur, phase, to_rate));
                proof {
                    assert((k + 1) * from == k * from + from) by (nonlinear_arith);
                    k = k + 1;
                }
                phase = phase + from;
            }
            proof {
                lemma_count_is(entry, from as int, to as int, k);
                lemma_emitted_count(entry, from as int, to as int);
                assert(out@ =~= before + sample_output(state, cur));
            }
            phase = phase - to;
            prev = cur;
            i += 1;
        }
        assert(input@.subrange(0, n as int) =~= input@);
        self.phase = phase;
        self.prev = prev;
        out
    }
}

/// Resampler from the pipeline's 48 kHz to a device rate, for playback.
pub struct PlaybackResampler {
    inner: LinearResampler,
}

impl View for PlaybackResampler {
    type V = ResamplerView;

    closed spec fn view(&self) -> ResamplerView {
        self.inner@
    }
}

impl PlaybackResampler {
    /// A resampler at the start of a stream.
    pub fn new(to_rate: u32) -> (r: PlaybackResampler)
        requires
            to_rate > 0,
        ensures
            r@ == (ResamplerView { from_rate: TARGET_RATE, to_rate, phase: 0, prev: 0 }),
            r@.valid(),
    {
        PlaybackResampler { inner: LinearResampler::new(TARGET_RATE, to_rate) }
    }

    /// Resample a mono buffer from 48 kHz to the device rate.
    pub fn process(&mut self, input: &[i16]) -> (out: Vec<i16>)
        ensures
            old(self)@.valid(),
            final(self)@ == resampled(old(self)@, input@).0,
            out@ == resampled(old(self)@, input@).1,
    {
        self.inner.process(input)
    }
}

} // verus!
