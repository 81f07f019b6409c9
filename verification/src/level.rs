//! Signal level and gain of 16-bit PCM.
//!
//! Levels are root-mean-square amplitudes as a fraction of full scale
//! (32767), given in ten-thousandths: 100 stands for 0.01. Gains are
//! multipliers given in thousandths: 1000 is unity, 0 is silence, 2000
//! doubles. Comparisons and products are exact; a scaled sample is the
//! whole part of the exact product, kept within -32767..=32767.

use vstd::prelude::*;

verus! {

/// Full scale of a sample.
pub const FULL_SCALE: i16 = 32767;

/// The gain that leaves samples as they are.
pub const UNITY_GAIN: u32 = 1000;

/// One, in the unit of levels.
pub const LEVEL_ONE: u64 = 10000;

/// The sum of the squares of the samples.
pub open spec fn energy(pcm: Seq<i16>) -> nat
    decreases pcm.len(),
{
    if pcm.len() == 0 {
        0
    } else {
        (energy(pcm.drop_last()) + pcm.last() * pcm.last()) as nat
    }
}

/// The root mean square of `pcm`, as a fraction of full scale, is below
/// `level` ten-thousandths: `sqrt(energy / n) / 32767 < level / 10000`,
/// with both sides squared and the divisions multiplied out. Of no samples
/// nothing is below anything.
pub open spec fn quieter_than(pcm: Seq<i16>, level: u16) -> bool {
    energy(pcm) * (LEVEL_ONE * LEVEL_ONE) < pcm.len() * (FULL_SCALE * FULL_SCALE) * (level * level)
}

proof fn lemma_energy_bound(pcm: Seq<i16>)
    ensures
        energy(pcm) <= pcm.len() * 0x4000_0000,
    decreases pcm.len(),
{
    if pcm.len() > 0 {
        lemma_energy_bound(pcm.drop_last());
        let s = pcm.last() as int;
        assert(s * s <= 0x4000_0000) by (nonlinear_arith)
            requires
                -32768 <= s <= 32767,
        ;
        assert(s * s >= 0) by (nonlinear_arith);
    }
}

/// The sum of the squares of the samples.
pub fn measure_energy(pcm: &[i16]) -> (e: u128)
    ensures
        e == energy(pcm@),
{
    let n: usize = pcm.len();
    let mut e: u128 = 0;
    let mut i: usize = 0;
    assert(pcm@.subrange(0, 0) =~= Seq::<i16>::empty());
    while i < n
        invariant
            i <= n,
            n == pcm@.len(),
            e == energy(pcm@.subrange(0, i as int)),
        decreases n - i,
    {
        let s: i64 = pcm[i] as i64;
        proof {
            let longer = pcm@.subrange(0, i + 1);
            assert(longer.drop_last() =~= pcm@.subrange(0, i as int));
            lemma_energy_bound(pcm@.subrange(0, i as int));
            assert(s * s <= 0x4000_0000 && s * s >= 0) by (nonlinear_arith)
                requires
                    -32768 <= s <= 32767,
            ;
        }
        e = e + ((s * s) as u128);
        i += 1;
    }
    assert(pcm@.subrange(0, n as int) =~= pcm@);
    e
}

/// Whether the level of `pcm` is below `level` ten-thousandths of full
/// scale.
pub fn is_quieter_than(pcm: &[i16], level: u16) -> (quiet: bool)
    ensures
        quiet == quieter_than(pcm@, level),
{
    let e: u128 = measure_energy(pcm);
    let n: u128 = pcm.len() as u128;
    let l: u128 = level as u128;
    proof {
        lemma_energy_bound(pcm@);
        assert(l * l <= 0xFFFF_FFFF) by (nonlinear_arith)
            requires
                0 <= l <= 0xFFFF,
        ;
        assert(n * 1073676289 * (l * l) <= 0xFFFF_FFFF_FFFF_FFFF * 1073676289 * 0xFFFF_FFFF)
            by (nonlinear_arith)
            requires
                0 <= n <= 0xFFFF_FFFF_FFFF_FFFF,
                0 <= l * l <= 0xFFFF_FFFF,
        ;
        assert(n * 1073676289 >= 0 && n * 1073676289 <= 0xFFFF_FFFF_FFFF_FFFF * 1073676289)
            by (nonlinear_arith)
            requires
                0 <= n <= 0xFFFF_FFFF_FFFF_FFFF,
        ;
        assert(e * 100000000 <= 0xFFFF_FFFF_FFFF_FFFF * 0x4000_0000 * 100000000)
            by (nonlinear_arith)
            requires
                0 <= e <= n * 0x4000_0000,
                0 <= n <= 0xFFFF_FFFF_FFFF_FFFF,
        ;
    }
    e * 100000000 < n * 1073676289 * (l * l)
}

/// The whole part of `a / b`, rounded towards zero.
pub open spec fn whole_part(a: int, b: int) -> int {
    if a >= 0 {
        a / b
    } else {
        -((-a) / b)
    }
}

/// A value kept within the symmetric range of a sample.
pub open spec fn clamp_sample(x: int) -> i16 {
    if x < -32767 {
        (-32767) as i16
    } else if x > 32767 {
        32767i16
    } else {
        x as i16
    }
}

/// A sample multiplied by `num / den`.
pub open spec fn scaled(sample: i16, num: int, den: int) -> i16 {
    clamp_sample(whole_part(sample * num, den))
}

/// The samples after a gain of `num / den`; a gain of exactly one leaves
/// them untouched.
pub open spec fn amplified(pcm: Seq<i16>, num: int, den: int) -> Seq<i16> {
    if num == den {
        pcm
    } else {
        Seq::new(pcm.len(), |i: int| scaled(pcm[i], num, den))
    }
}

/// Multiply one sample by `num / den`.
pub fn scale_sample(sample: i16, num: u64, den: u64) -> (s: i16)
    requires
        den > 0,
    ensures
        s == scaled(sample, num as int, den as int),
{
    proof {
        assert(-32768 * 0xFFFF_FFFF_FFFF_FFFF <= sample * num <= 32767 * 0xFFFF_FFFF_FFFF_FFFF)
            by (nonlinear_arith)
            requires
                -32768 <= sample <= 32767,
                0 <= num <= 0xFFFF_FFFF_FFFF_FFFF,
        ;
    }
    let product: i128 = (sample as i128) * (num as i128);
    if product >= 0 {
        let whole: i128 = product / (den as i128);
        if whole > 32767 {
            32767
        } else {
            whole as i16
        }
    } else {
        let whole: i128 = (-product) / (den as i128);
        if whole > 32767 {
            -32767
        } else {
            (-whole) as i16
        }
    }
}

/// Apply a gain of `num / den` to every sample; a gain of exactly one
/// leaves the buffer untouched.
pub fn amplify(pcm: &mut Vec<i16>, num: u64, den: u64)
    requires
        den > 0,
    ensures
        final(pcm)@ == amplified(old(pcm)@, num as int, den as int),
{
    if num == den {
        return ;
    }
    let n: usize = pcm.len();
    let mut i: usize = 0;
    while i < n
        invariant
            i <= n,
            den > 0,
            n == pcm@.len(),
            n == old(pcm)@.len(),
            forall|j: int| 0 <= j < i ==> pcm@[j] == scaled(old(pcm)@[j], num as int, den as int),
            forall|j: int| i <= j < n ==> pcm@[j] == old(pcm)@[j],
        decreases n - i,
    {
        let s = scale_sample(pcm[i], num, den);
        pcm.set(i, s);
        i += 1;
    }
    assert(pcm@ =~= amplified(old(pcm)@, num as int, den as int));
}

/// The buffer after the noise gate and the input gain: silence where the
/// gate is on and the level is below it, else the samples times the gain.
pub open spec fn processed_input(pcm: Seq<i16>, volume: u32, gate: u16) -> Seq<i16> {
    if gate > 0 && quieter_than(pcm, gate) {
        Seq::new(pcm.len(), |i: int| 0i16)
    } else {
        amplified(pcm, volume as int, UNITY_GAIN as int)
    }
}

/// Apply the noise gate, then the input gain, to a captured buffer. A gate
/// of 0 is off.
pub fn apply_input_processing(pcm: &mut Vec<i16>, volume: u32, gate: u16)
    ensures
        final(pcm)@ == processed_input(old(pcm)@, volume, gate),
{
    if gate > 0 && is_quieter_than(pcm.as_slice(), gate) {
        let n: usize = pcm.len();
        let mut i: usize = 0;
        while i < n
            invariant
                i <= n,
                n == pcm@.len(),
                forall|j: int| 0 <= j < i ==> pcm@[j] == 0,
            decreases n - i,
        {
            pcm.set(i, 0);
            i += 1;
        }
        assert(pcm@ =~= Seq::new(old(pcm)@.len(), |i: int| 0i16));
        return ;
    }
    amplify(pcm, volume as u64, UNITY_GAIN as u64);
}

} // verus!
