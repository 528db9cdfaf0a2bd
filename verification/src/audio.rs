//! Fixed-point sample processing: linear-interpolation resampling and
//! channel mixdown.
//!
//! An amplitude is held as a Q15 fixed-point value: an `i64` in
//! `[-AMP_ONE, AMP_ONE]`, where `AMP_ONE` stands for full scale (1.0).
//! All arithmetic on samples is exact integer arithmetic; quotients are
//! floors (Euclidean division by a positive divisor).

use vstd::prelude::*;

verus! {

use vstd::arithmetic::div_mod::{
    lemma_hoist_over_denominator, lemma_div_is_ordered, lemma_div_multiples_vanish,
    lemma_mod_division_less_than_divisor, lemma_fundamental_div_mod,
};

/// Full-scale amplitude: the fixed-point value standing for 1.0.
pub const AMP_ONE: i64 = 32768;

/// A sample is in range when it lies within [-AMP_ONE, AMP_ONE].
pub open spec fn valid_sample(s: i64) -> bool {
    -AMP_ONE <= s <= AMP_ONE
}

/// Every sample of the sequence is in range.
pub open spec fn all_valid(s: Seq<i64>) -> bool {
    forall|i: int| 0 <= i < s.len() ==> valid_sample(#[trigger] s[i])
}

/// Mathematical view of a sample buffer.
pub open spec fn to_ints(s: Seq<i64>) -> Seq<int> {
    s.map_values(|x: i64| x as int)
}

/// Sum of `count` consecutive samples starting at index `base`.
pub open spec fn frame_sum(s: Seq<i64>, base: int, count: nat) -> int
    decreases count,
{
    if count == 0 {
        0
    } else {
        s[base] + frame_sum(s, base + 1, (count - 1) as nat)
    }
}

/// Floor of the arithmetic mean of frame `i` of a `channels`-channel
/// interleaved sequence.
pub open spec fn frame_mean(s: Seq<i64>, channels: int, i: int) -> int {
    frame_sum(s, i * channels, channels as nat) / channels
}

/// Mono mixdown of a `channels`-channel interleaved sequence: one mean per
/// complete frame; a trailing partial frame is discarded.
pub open spec fn mixdown_spec(s: Seq<i64>, channels: int) -> Seq<int> {
    Seq::new((s.len() as int / channels) as nat, |i: int| frame_mean(s, channels, i))
}

/// Linearly interpolated output sample `i` when converting `s` from rate
/// `from` to rate `to`: source position `i * from / to`, split into whole
/// part `k` and remainder `f` of the division by `to`.
pub open spec fn interp_at(s: Seq<i64>, from: int, to: int, i: int) -> int {
    let p = i * from;
    let k = p / to;
    let f = p % to;
    if k + 1 < s.len() {
        (s[k] * (to - f) + s[k + 1] * f) / to
    } else if k < s.len() {
        s[k] as int
    } else {
        0
    }
}

/// Rate conversion of a whole buffer: the input unchanged when the rates
/// agree or the input is empty, else `floor(len * to / from)` interpolated
/// samples.
pub open spec fn resample_spec(s: Seq<i64>, from: int, to: int) -> Seq<int> {
    if from == to || s.len() == 0 {
        to_ints(s)
    } else {
        Seq::new((s.len() * to / from) as nat, |i: int| interp_at(s, from, to, i))
    }
}

/// Resampling at an unchanged rate returns the input unchanged.
pub proof fn lemma_resample_identity(s: Seq<i64>, rate: int)
    ensures
        resample_spec(s, rate, rate) == to_ints(s),
{
}

/// For differing rates and a nonempty input, the output length is
/// `floor(len * to / from)`.
pub proof fn lemma_resample_len(s: Seq<i64>, from: int, to: int)
    requires
        from >= 1,
        to >= 1,
        from != to,
        s.len() > 0,
    ensures
        resample_spec(s, from, to).len() == s.len() * to / from,
{
    assert(s.len() * to >= 0) by (nonlinear_arith)
        requires
            s.len() >= 0,
            to >= 1,
    {};
    vstd::arithmetic::div_mod::lemma_div_pos_is_pos(s.len() * to, from);
}

/// Stereo mixdown takes each interleaved pair to the mean of its two
/// channels: output sample `i` is `(s[2i] + s[2i+1]) / 2`.
pub proof fn lemma_stereo_mixdown(s: Seq<i64>, i: int)
    requires
        0 <= i,
        2 * i + 1 < s.len(),
    ensures
        i < mixdown_spec(s, 2).len(),
        mixdown_spec(s, 2)[i] == (s[2 * i] + s[2 * i + 1]) / 2,
{
    assert(i < s.len() as int / 2) by {
        lemma_fundamental_div_mod(s.len() as int, 2);
        lemma_mod_division_less_than_divisor(s.len() as int, 2);
    };
    assert(frame_sum(s, 2 * i, 2) == s[2 * i] + s[2 * i + 1]) by {
        reveal_with_fuel(frame_sum, 3);
    };
}

/// Convert any input rate to any output rate by linear interpolation.
pub fn resample(samples: &Vec<i64>, from_rate: u32, to_rate: u32) -> (r: Vec<i64>)
    requires
        from_rate >= 1,
        to_rate >= 1,
        all_valid(samples@),
        samples@.len() * (to_rate as int) / (from_rate as int) <= usize::MAX,
    ensures
        to_ints(r@) == resample_spec(samples@, from_rate as int, to_rate as int),
        r@.len() == resample_spec(samples@, from_rate as int, to_rate as int).len(),
        forall|i: int| 0 <= i < r@.len() ==> #[trigger] r@[i] as int == resample_spec(
            samples@, from_rate as int, to_rate as int)[i],
        all_valid(r@),
        (from_rate == to_rate || samples@.len() == 0) ==> r@ == samples@,
{
    if from_rate == to_rate || samples.len() == 0 {
        let r = samples.clone();
        assert(to_ints(r@) =~= resample_spec(samples@, from_rate as int, to_rate as int));
        return r;
    }

    let len: usize = samples.len();
    let from_u: u128 = from_rate as u128;
    let to_u: u128 = to_rate as u128;
    proof {
        assert((len as int) * (to_u as int) <= (u64::MAX as int) * (u32::MAX as int))
            by (nonlinear_arith)
            requires
                0 <= len as int <= u64::MAX as int,
                0 <= to_u as int <= u32::MAX as int,
        {};
    }
    let out_len_u: u128 = (len as u128) * to_u / from_u;
    let out_len: usize = out_len_u as usize;
    let mut out: Vec<i64> = Vec::new();
    let mut i: usize = 0;
    while i < out_len
        invariant
            from_rate >= 1,
            to_rate >= 1,
            from_rate != to_rate,
            len == samples@.len(),
            len > 0,
            all_valid(samples@),
            from_u == from_rate as int,
            to_u == to_rate as int,
            out_len == samples@.len() * (to_rate as int) / (from_rate as int),
            i <= out_len,
            out@.len() == i,
            forall|j: int| 0 <= j < i ==> #[trigger] out@[j] as int == interp_at(
                samples@, from_rate as int, to_rate as int, j),
            all_valid(out@),
        decreases out_len - i,
    {
        proof {
            assert((i as int) * (from_u as int) <= (u64::MAX as int) * (u32::MAX as int))
                by (nonlinear_arith)
                requires
                    0 <= i as int <= u64::MAX as int,
                    0 <= from_u as int <= u32::MAX as int,
            {};
        }
        let p: u128 = (i as u128) * from_u;
        let ghost pi: int = i as int * from_rate as int;
        let ghost toi: int = to_rate as int;
        let k_u: u128 = p / to_u;
        let f_u: u128 = p % to_u;
        proof {
            lemma_mod_division_less_than_divisor(pi, toi);
            vstd::arithmetic::div_mod::lemma_div_pos_is_pos(pi, toi);
        }
        let v: i64;
        if k_u < (len - 1) as u128 {
            let k: usize = k_u as usize;
            let a: u64 = (samples[k] + AMP_ONE) as u64;
            let b: u64 = (samples[k + 1] + AMP_ONE) as u64;
            let t64: u64 = to_rate as u64;
            let fr: u64 = f_u as u64;
            assert(a * (t64 - fr) + b * fr <= 65536 * t64) by (nonlinear_arith)
                requires
                    a <= 65536,
                    b <= 65536,
                    0 <= fr < t64,
            {};
            let num: u64 = a * (t64 - fr) + b * fr;
            let q: u64 = num / t64;
            proof {
                let s0: int = samples@[k_u as int] as int;
                let s1: int = samples@[k_u as int + 1] as int;
                let fi: int = pi % toi;
                let am: int = AMP_ONE as int;
                let x: int = s0 * (toi - fi) + s1 * fi;
                assert(a as int == s0 + am);
                assert(b as int == s1 + am);
                assert(fr as int == fi);
                assert(num as int == (s0 + am) * (toi - fi) + (s1 + am) * fi);
                assert((s0 + am) * (toi - fi) + (s1 + am) * fi == s0 * (toi - fi) + s1 * fi
                    + am * toi) by (nonlinear_arith);
                lemma_hoist_over_denominator(x, AMP_ONE as int, toi as nat);
                assert(q as int == x / toi + AMP_ONE);
                assert(q <= 65536) by {
                    lemma_div_is_ordered(num as int, 65536 * toi, toi);
                    lemma_div_multiples_vanish(65536, toi);
                };
            }
            v = (q as i64) - AMP_ONE;
        } else if k_u < len as u128 {
            v = samples[k_u as usize];
        } else {
            v = 0;
        }
        assert(v as int == interp_at(samples@, from_rate as int, to_rate as int, i as int));
        out.push(v);
        i = i + 1;
    }
    assert(to_ints(out@) =~= resample_spec(samples@, from_rate as int, to_rate as int));
    out
}

/// Mix a `channels`-channel interleaved buffer down to mono, one mean per
/// complete frame.
pub fn mix_to_mono(samples: &Vec<i64>, channels: u32) -> (r: Vec<i64>)
    requires
        channels >= 1,
        all_valid(samples@),
    ensures
        to_ints(r@) == mixdown_spec(samples@, channels as int),
        r@.len() == samples@.len() as int / channels as int,
        forall|i: int| 0 <= i < r@.len() ==> #[trigger] r@[i] as int == frame_mean(
            samples@, channels as int, i),
        all_valid(r@),
{
    let len: usize = samples.len();
    let c: usize = channels as usize;
    let frames: usize = len / c;
    proof {
        lemma_fundamental_div_mod(len as int, c as int);
        lemma_mod_division_less_than_divisor(len as int, c as int);
        assert((frames as int) * (c as int) == (c as int) * (len as int / c as int))
            by (nonlinear_arith)
            requires
                frames as int == len as int / c as int,
        {};
    }
    let mut out: Vec<i64> = Vec::new();
    let mut i: usize = 0;
    while i < frames
        invariant
            channels >= 1,
            c == channels as int,
            len == samples@.len(),
            frames == samples@.len() as int / channels as int,
            frames * c <= len,
            all_valid(samples@),
            i <= frames,
            out@.len() == i,
            forall|j: int| 0 <= j < i ==> #[trigger] out@[j] as int == frame_mean(
                samples@, channels as int, j),
            all_valid(out@),
        decreases frames - i,
    {
        proof {
            assert((i as int) * (c as int) + c as int <= (frames as int) * (c as int))
                by (nonlinear_arith)
                requires
                    0 <= i as int,
                    (i as int) < (frames as int),
                    c as int >= 1,
            {};
        }
        let base: usize = i * c;
        let mut acc: u64 = 0;
        let mut j: usize = 0;
        while j < c
            invariant
                c == channels as int,
                len == samples@.len(),
                all_valid(samples@),
                base + c <= len,
                j <= c,
                acc as int == frame_sum(samples@, base as int, j as nat) + j * (AMP_ONE as int),
                acc <= j * 65536,
            decreases c - j,
        {
            let s: i64 = samples[base + j];
            proof {
                lemma_frame_sum_snoc(samples@, base as int, j as nat);
                assert(acc + (s + AMP_ONE) <= (j + 1) * 65536) by (nonlinear_arith)
                    requires
                        acc <= j * 65536,
                        0 <= s + AMP_ONE <= 65536,
                {};
            }
            acc = acc + ((s + AMP_ONE) as u64);
            j = j + 1;
        }
        let q: u64 = acc / (channels as u64);
        proof {
            let ci: int = channels as int;
            let fs: int = frame_sum(samples@, base as int, c as nat);
            lemma_hoist_over_denominator(fs, AMP_ONE as int, ci as nat);
            assert(acc as int == fs + AMP_ONE * ci) by (nonlinear_arith)
                requires
                    acc as int == fs + c * (AMP_ONE as int),
                    c == ci,
            {};
            assert(q as int == fs / ci + AMP_ONE);
            assert(q <= 65536) by {
                lemma_div_is_ordered(acc as int, 65536 * ci, ci);
                lemma_div_multiples_vanish(65536, ci);
            };
            assert(base as int == i as int * ci) by (nonlinear_arith)
                requires
                    base == i * c,
                    c == ci,
            {};
        }
        let v: i64 = (q as i64) - AMP_ONE;
        out.push(v);
        i = i + 1;
    }
    assert(to_ints(out@) =~= mixdown_spec(samples@, channels as int));
    out
}

/// Extending a frame sum by one sample appends that sample to the total.
proof fn lemma_frame_sum_snoc(s: Seq<i64>, base: int, count: nat)
    requires
        0 <= base,
        base + count < s.len(),
    ensures
        frame_sum(s, base, count + 1) == frame_sum(s, base, count) + s[base + count],
    decreases count,
{
    if count == 0 {
        assert(frame_sum(s, base, 1) == s[base] + frame_sum(s, base + 1, 0));
        assert(frame_sum(s, base + 1, 0) == 0);
    } else {
        lemma_frame_sum_snoc(s, base + 1, (count - 1) as nat);
        assert(frame_sum(s, base, count + 1) == s[base] + frame_sum(s, base + 1, count));
        assert(frame_sum(s, base, count) == s[base] + frame_sum(
            s, base + 1, (count - 1) as nat));
    }
}

} // verus!
