//! Resampler: linear-interpolation rate conversion of a finite sample
//! sequence, applied once per channel before playback streaming starts and
//! never inside a real-time callback.
//!
//! Output index `i` reads source position `t = i * source_rate /
//! target_rate`; the two bracketing source samples are interpolated
//! linearly, the fractional step rounded toward the earlier sample. The
//! output spans the same duration, so its length is the length of the
//! source scaled by `target_rate / source_rate`, rounded up; past the last
//! source sample nothing is extrapolated.

use vstd::prelude::*;

verus! {

use crate::config::MAX_AMP;
use vstd::arithmetic::div_mod::{
    lemma_div_multiples_vanish_fancy,
    lemma_fundamental_div_mod,
    lemma_mod_division_less_than_divisor,
    lemma_mod_multiples_basic,
    lemma_multiply_divide_le,
    lemma_multiply_divide_lt,
};
use vstd::arithmetic::mul::{lemma_mul_inequality, lemma_mul_nonnegative};

/// How many samples a resampled sequence holds: the source length scaled
/// by `target / source`, rounded up.
pub open spec fn resampled_len(len: int, source: int, target: int) -> int
    recommends
        source >= 1,
        target >= 1,
{
    (len * target + source - 1) / source
}

/// Linear interpolation from `a` toward `b` by the fraction `num / den`,
/// with the fractional step rounded toward `a`.
pub open spec fn lerp(a: int, b: int, num: int, den: int) -> int
    recommends
        den >= 1,
        0 <= num < den,
{
    if b >= a {
        a + ((b - a) * num) / den
    } else {
        a - ((a - b) * num) / den
    }
}

/// A whole sequence resampled from `source` to `target` rate.
pub open spec fn resampled_seq(s: Seq<i64>, source: int, target: int) -> Seq<i64>
    recommends
        source >= 1,
        target >= 1,
{
    Seq::new(
        resampled_len(s.len() as int, source, target) as nat,
        |i: int| resample_at(s, source, target, i) as i64,
    )
}

/// The sample a resampled sequence holds at output index `i`: the linear
/// interpolation between the two source samples bracketing `t = i * source
/// / target`, the last source sample standing in for its missing
/// successor.
pub open spec fn resample_at(s: Seq<i64>, source: int, target: int, i: int) -> int
    recommends
        source >= 1,
        target >= 1,
        0 <= i < resampled_len(s.len() as int, source, target),
{
    let t = i * source;
    let idx = t / target;
    let num = t % target;
    let a = s[idx] as int;
    let b = if idx + 1 < s.len() {
        s[idx + 1] as int
    } else {
        s[idx] as int
    };
    lerp(a, b, num, target)
}

/// Every output index of a resampled sequence reads a source index in
/// range, and its successor index stays in range of the bracket choice.
pub proof fn lemma_resample_index(len: int, source: int, target: int, i: int)
    requires
        source >= 1,
        target >= 1,
        len >= 0,
        0 <= i < resampled_len(len, source, target),
    ensures
        0 <= (i * source) / target < len,
        0 <= (i * source) % target < target,
{
    let t = i * source;
    lemma_mul_nonnegative(i, source);
    vstd::arithmetic::div_mod::lemma_div_pos_is_pos(t, target);
    lemma_mod_division_less_than_divisor(t, target);
    // From i < ceil(len * target / source): (i + 1) * source <= len * target + source - 1.
    let q = (len * target + source - 1) / source;
    lemma_mul_inequality(i + 1, q, source);
    lemma_fundamental_div_mod(len * target + source - 1, source);
    lemma_mod_division_less_than_divisor(len * target + source - 1, source);
    assert(q * source <= len * target + source - 1);
    assert((i + 1) * source == i * source + source) by (nonlinear_arith);
    assert(t < len * target);
    assert(t < target * len) by (nonlinear_arith)
        requires
            t < len * target,
    ;
    lemma_multiply_divide_lt(t, target, len);
}

/// The interpolated sample never leaves the closed range between its two
/// bracketing samples.
pub proof fn lemma_lerp_between(a: int, b: int, num: int, den: int)
    requires
        den >= 1,
        0 <= num < den,
    ensures
        b >= a ==> a <= lerp(a, b, num, den) <= b,
        b < a ==> b <= lerp(a, b, num, den) <= a,
{
    if b >= a {
        let d = b - a;
        lemma_mul_nonnegative(d, num);
        vstd::arithmetic::div_mod::lemma_div_pos_is_pos(d * num, den);
        assert(d * num <= den * d) by (nonlinear_arith)
            requires
                0 <= num < den,
                d >= 0,
        ;
        lemma_multiply_divide_le(d * num, den, d);
    } else {
        let d = a - b;
        lemma_mul_nonnegative(d, num);
        vstd::arithmetic::div_mod::lemma_div_pos_is_pos(d * num, den);
        assert(d * num <= den * d) by (nonlinear_arith)
            requires
                0 <= num < den,
                d >= 0,
        ;
        lemma_multiply_divide_le(d * num, den, d);
    }
}

/// Converts a sample sequence from `source_rate` to `target_rate` by
/// linear interpolation, spanning the same duration.
pub fn resample(src: &Vec<i64>, source_rate: u32, target_rate: u32) -> (out: Vec<i64>)
    requires
        source_rate >= 1,
        target_rate >= 1,
        forall|j: int| 0 <= j < src@.len() ==> -MAX_AMP <= #[trigger] src@[j] <= MAX_AMP,
        src@.len() * target_rate + source_rate <= usize::MAX,
    ensures
        out@.len() == resampled_len(src@.len() as int, source_rate as int, target_rate as int),
        forall|i: int|
            0 <= i < out@.len() ==> out@[i] == resample_at(
                src@,
                source_rate as int,
                target_rate as int,
                i,
            ),
        forall|i: int| 0 <= i < out@.len() ==> -MAX_AMP <= #[trigger] out@[i] <= MAX_AMP,
        out@ == resampled_seq(src@, source_rate as int, target_rate as int),
{
    let len = src.len();
    let sr = source_rate as u64;
    let tr = target_rate as u64;
    proof {
        lemma_mul_nonnegative(len as int, tr as int);
        vstd::arithmetic::div_mod::lemma_div_pos_is_pos(len as int * tr as int + sr - 1, sr as int);
        vstd::arithmetic::div_mod::lemma_div_nonincreasing(
            len as int * tr as int + sr - 1,
            sr as int,
        );
    }
    let out_len_wide: u64 = ((len as u64) * tr + sr - 1) / sr;
    let out_len: usize = out_len_wide as usize;
    let mut out: Vec<i64> = Vec::new();
    let mut i: usize = 0;
    while i < out_len
        invariant
            source_rate >= 1,
            target_rate >= 1,
            sr == source_rate,
            tr == target_rate,
            len == src@.len(),
            forall|j: int| 0 <= j < src@.len() ==> -MAX_AMP <= #[trigger] src@[j] <= MAX_AMP,
            src@.len() * target_rate + source_rate <= usize::MAX,
            out_len == resampled_len(src@.len() as int, source_rate as int, target_rate as int),
            i <= out_len,
            out@.len() == i,
            forall|j: int|
                0 <= j < i ==> out@[j] == resample_at(
                    src@,
                    source_rate as int,
                    target_rate as int,
                    j,
                ),
            forall|j: int| 0 <= j < i ==> -MAX_AMP <= #[trigger] out@[j] <= MAX_AMP,
        decreases out_len - i,
    {
        proof {
            lemma_resample_index(len as int, source_rate as int, target_rate as int, i as int);
            lemma_mul_inequality(i as int, out_len as int, source_rate as int);
            lemma_mul_nonnegative(out_len as int, source_rate as int);
            assert(out_len * sr <= len as int * tr as int + sr - 1) by {
                lemma_mul_inequality(
                    out_len as int,
                    (len as int * tr as int + sr - 1) / (sr as int),
                    sr as int,
                );
                lemma_fundamental_div_mod(len as int * tr as int + sr - 1, sr as int);
                lemma_mod_division_less_than_divisor(len as int * tr as int + sr - 1, sr as int);
            }
        }
        let t: u64 = (i as u64) * sr;
        let idx_wide: u64 = t / tr;
        let num: u64 = t % tr;
        let idx: usize = idx_wide as usize;
        let a: i64 = src[idx];
        let b: i64 = if idx + 1 < len {
            src[idx + 1]
        } else {
            a
        };
        proof {
            lemma_lerp_between(a as int, b as int, num as int, target_rate as int);
        }
        let sample: i64;
        if b >= a {
            proof {
                assert(((b - a) as int) * (num as int) <= 0x40_0000_0000_0000_0000_0000)
                    by (nonlinear_arith)
                    requires
                        0 <= b - a <= 0x40_0000_0000,
                        0 <= num < 0x1_0000_0000,
                ;
                lemma_mul_nonnegative((b - a) as int, num as int);
                vstd::arithmetic::div_mod::lemma_div_pos_is_pos(
                    ((b - a) as int) * (num as int),
                    tr as int,
                );
                assert(((b - a) as int) * (num as int) <= (tr as int) * ((b - a) as int))
                    by (nonlinear_arith)
                    requires
                        0 <= num < tr,
                        b - a >= 0,
                ;
                lemma_multiply_divide_le(
                    ((b - a) as int) * (num as int),
                    tr as int,
                    (b - a) as int,
                );
            }
            let step_wide: u128 = ((b - a) as u128) * (num as u128) / (tr as u128);
            let step: i64 = step_wide as i64;
            sample = a + step;
        } else {
            proof {
                assert(((a - b) as int) * (num as int) <= 0x40_0000_0000_0000_0000_0000)
                    by (nonlinear_arith)
                    requires
                        0 <= a - b <= 0x40_0000_0000,
                        0 <= num < 0x1_0000_0000,
                ;
                lemma_mul_nonnegative((a - b) as int, num as int);
                vstd::arithmetic::div_mod::lemma_div_pos_is_pos(
                    ((a - b) as int) * (num as int),
                    tr as int,
                );
                assert(((a - b) as int) * (num as int) <= (tr as int) * ((a - b) as int))
                    by (nonlinear_arith)
                    requires
                        0 <= num < tr,
                        a - b >= 0,
                ;
                lemma_multiply_divide_le(
                    ((a - b) as int) * (num as int),
                    tr as int,
                    (a - b) as int,
                );
            }
            let step_wide: u128 = ((a - b) as u128) * (num as u128) / (tr as u128);
            let step: i64 = step_wide as i64;
            sample = a - step;
        }
        out.push(sample);
        i = i + 1;
    }
    proof {
        assert(out@ =~= resampled_seq(src@, source_rate as int, target_rate as int));
    }
    out
}

/// Law: resampling preserves a constant signal; every output sample of a
/// constant source equals that constant, at any pair of rates.
pub proof fn lemma_resample_constant(s: Seq<i64>, source: int, target: int, v: i64)
    requires
        source >= 1,
        target >= 1,
        forall|j: int| 0 <= j < s.len() ==> #[trigger] s[j] == v,
    ensures
        forall|i: int|
            0 <= i < resampled_len(s.len() as int, source, target) ==> #[trigger] resample_at(
                s,
                source,
                target,
                i,
            ) == v,
{
    assert forall|i: int| 0 <= i < resampled_len(s.len() as int, source, target) implies #[trigger]
        resample_at(s, source, target, i) == v by {
        lemma_resample_index(s.len() as int, source, target, i);
        let t = i * source;
        let idx = t / target;
        assert(s[idx] == v);
        if idx + 1 < s.len() {
            assert(s[idx + 1] == v);
        }
        assert(lerp(v as int, v as int, t % target, target) == v);
    }
}

/// Law: resampling at equal source and target rates returns the input
/// unchanged, sample for sample and in length.
pub proof fn lemma_resample_same_rate(s: Seq<i64>, rate: int)
    requires
        rate >= 1,
    ensures
        resampled_len(s.len() as int, rate, rate) == s.len(),
        forall|i: int| 0 <= i < s.len() ==> #[trigger] resample_at(s, rate, rate, i) == s[i],
{
    let len = s.len() as int;
    assert((len * rate + rate - 1) / rate == len) by {
        lemma_div_multiples_vanish_fancy(len, rate - 1, rate);
        assert(rate * len == len * rate) by (nonlinear_arith);
    }
    assert forall|i: int| 0 <= i < s.len() implies #[trigger] resample_at(s, rate, rate, i)
        == s[i] by {
        let t = i * rate;
        assert(t / rate == i && t % rate == 0) by {
            lemma_div_multiples_vanish_fancy(i, 0, rate);
            lemma_mod_multiples_basic(i, rate);
            assert(rate * i == i * rate) by (nonlinear_arith);
        }
        assert(lerp(s[i] as int, if i + 1 < s.len() {
            s[i + 1] as int
        } else {
            s[i] as int
        }, 0, rate) == s[i]) by {
            let b = if i + 1 < s.len() {
                s[i + 1] as int
            } else {
                s[i] as int
            };
            if b >= s[i] as int {
                assert((b - s[i]) * 0 == 0) by (nonlinear_arith);
            } else {
                assert((s[i] - b) * 0 == 0) by (nonlinear_arith);
            }
        }
    }
}

} // verus!
