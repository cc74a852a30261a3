//! Sample codec adapter: converts device-native sample values to and from
//! normalized fixed-point amplitudes.
//!
//! A native value of a signed integer format is divided by the maximum
//! magnitude of its width; since every magnitude divides `NORM_ONE`, the
//! normalized amplitude is exact. A `Float32` native sample already carries
//! a normalized amplitude, so both directions are the identity on it.
//! Denormalizing to an integer format clamps the amplitude to full scale
//! first: an out-of-range sample would otherwise leave the native range.

use vstd::prelude::*;

verus! {

use crate::config::{SampleFormat, NORM_ONE, MAX_AMP};
use vstd::arithmetic::div_mod::{lemma_div_multiples_vanish_fancy, lemma_multiply_divide_lt};

/// The normalized amplitude of a native value: scaled exactly into fixed
/// point, `NORM_ONE / magnitude` fixed-point steps per native step.
pub open spec fn norm_spec(x: int, format: SampleFormat) -> int {
    x * format.scale()
}

/// An amplitude clamped to full scale, `-NORM_ONE..=NORM_ONE`.
pub open spec fn clamp_amp(q: int) -> int {
    if q < -(NORM_ONE as int) {
        -(NORM_ONE as int)
    } else if q > NORM_ONE {
        NORM_ONE as int
    } else {
        q
    }
}

/// `q` divided by `k`, rounded to the nearest integer with ties away from
/// zero.
pub open spec fn round_div(q: int, k: int) -> int
    recommends
        k >= 1,
{
    if q >= 0 {
        (q + k / 2) / k
    } else {
        -((-q + k / 2) / k)
    }
}

/// The native value of a normalized amplitude: clamped to full scale, then
/// rounded to the nearest native step; full positive scale itself becomes
/// the largest native value, which is one step below it. `Float32` passes
/// through unchanged.
pub open spec fn denorm_spec(q: int, format: SampleFormat) -> int {
    if format is Float32 {
        q
    } else {
        let d = round_div(clamp_amp(q), format.scale());
        if d >= format.magnitude() {
            format.magnitude() - 1
        } else {
            d
        }
    }
}

/// The scale and magnitude of every format multiply out to `NORM_ONE`, and
/// each is positive.
pub proof fn lemma_scale_magnitude(format: SampleFormat)
    ensures
        format.scale() * format.magnitude() == NORM_ONE,
        format.scale() >= 1,
        format.magnitude() >= 0x80,
{
    match format {
        SampleFormat::Int8 => {},
        SampleFormat::Int16 => {},
        SampleFormat::Int24 => {},
        SampleFormat::Int32 => {},
        SampleFormat::Float32 => {},
    }
}

/// The fixed-point steps per native step of a format, as a value.
pub fn scale_steps(format: SampleFormat) -> (k: i64)
    ensures
        k == format.scale(),
{
    match format {
        SampleFormat::Int8 => 0x200_0000,
        SampleFormat::Int16 => 0x2_0000,
        SampleFormat::Int24 => 0x200,
        SampleFormat::Int32 => 2,
        SampleFormat::Float32 => 1,
    }
}

/// The maximum magnitude of a format, as a value.
pub fn magnitude_steps(format: SampleFormat) -> (m: i64)
    ensures
        m == format.magnitude(),
{
    match format {
        SampleFormat::Int8 => 0x80,
        SampleFormat::Int16 => 0x8000,
        SampleFormat::Int24 => 0x80_0000,
        SampleFormat::Int32 => 0x8000_0000,
        SampleFormat::Float32 => 0x1_0000_0000,
    }
}

/// Converts a representable native value to its normalized amplitude.
/// Exact: a representable value scales without loss, and full scale is
/// never exceeded.
pub fn normalize(x: i64, format: SampleFormat) -> (q: i64)
    requires
        format.representable(x as int),
    ensures
        q == norm_spec(x as int, format),
        -MAX_AMP <= q <= MAX_AMP,
        !(format is Float32) ==> -NORM_ONE <= q < NORM_ONE,
        format is Float32 ==> q == x,
{
    match format {
        SampleFormat::Int8 => x * 0x200_0000,
        SampleFormat::Int16 => x * 0x2_0000,
        SampleFormat::Int24 => x * 0x200,
        SampleFormat::Int32 => x * 2,
        SampleFormat::Float32 => x,
    }
}

/// Converts a normalized amplitude back to a native value of the format.
/// The result is always representable in the format; an amplitude beyond
/// full scale is clamped first (see the module note).
pub fn denormalize(q: i64, format: SampleFormat) -> (x: i64)
    requires
        -MAX_AMP <= q <= MAX_AMP,
    ensures
        x == denorm_spec(q as int, format),
        format.representable(x as int),
        format is Float32 ==> x == q,
{
    if matches!(format, SampleFormat::Float32) {
        return q;
    }
    let k = scale_steps(format);
    let m = magnitude_steps(format);
    proof {
        lemma_scale_magnitude(format);
    }
    let c: i64 = if q < -NORM_ONE {
        -NORM_ONE
    } else if q > NORM_ONE {
        NORM_ONE
    } else {
        q
    };
    let negative = c < 0;
    let mag: u64 = if negative {
        (-c) as u64
    } else {
        c as u64
    };
    let half: u64 = (k as u64) / 2;
    let d0: u64 = (mag + half) / (k as u64);
    proof {
        assert(mag + half < k * ((m + 1) as int)) by (nonlinear_arith)
            requires
                k * (m as int) == NORM_ONE,
                k >= 1,
                mag <= NORM_ONE,
                half == k as int / 2,
        ;
        lemma_multiply_divide_lt(mag as int + half as int, k as int, m as int + 1);
    }
    let d: i64 = if negative {
        -(d0 as i64)
    } else {
        d0 as i64
    };
    if d >= m {
        m - 1
    } else {
        d
    }
}

/// Law: denormalizing the normalized form of any representable native value
/// gives that value back, for every native format.
pub proof fn lemma_denormalize_normalize(x: int, format: SampleFormat)
    requires
        format.representable(x),
    ensures
        denorm_spec(norm_spec(x, format), format) == x,
{
    if format is Float32 {
    } else {
        let k = format.scale();
        let m = format.magnitude();
        let q = norm_spec(x, format);
        lemma_scale_magnitude(format);
        if x >= 0 {
            assert(0 <= q < NORM_ONE) by (nonlinear_arith)
                requires
                    q == x * k,
                    0 <= x < m,
                    k >= 1,
                    k * m == NORM_ONE,
            ;
            assert((q + k / 2) / k == x) by {
                lemma_div_multiples_vanish_fancy(x, k / 2, k);
                assert(k * x + k / 2 == q + k / 2) by (nonlinear_arith)
                    requires
                        q == x * k,
                ;
            }
            assert(round_div(q, k) == x);
        } else {
            assert(-NORM_ONE <= q < 0) by (nonlinear_arith)
                requires
                    q == x * k,
                    -m <= x < 0,
                    k >= 1,
                    k * m == NORM_ONE,
            ;
            assert((-q + k / 2) / k == -x) by {
                lemma_div_multiples_vanish_fancy(-x, k / 2, k);
                assert(k * (-x) + k / 2 == -q + k / 2) by (nonlinear_arith)
                    requires
                        q == x * k,
                ;
            }
            assert(round_div(q, k) == x);
        }
        assert(clamp_amp(q) == q);
    }
}

/// Law: on the float format, normalization and denormalization are both the
/// identity on every accepted amplitude.
pub proof fn lemma_float32_identity(q: int)
    ensures
        norm_spec(q, SampleFormat::Float32) == q,
        denorm_spec(q, SampleFormat::Float32) == q,
{
}

/// A whole block of native values, normalized in order.
pub open spec fn normalized_seq(s: Seq<i64>, format: SampleFormat) -> Seq<i64> {
    Seq::new(s.len(), |i: int| norm_spec(s[i] as int, format) as i64)
}

/// Converts a whole block of representable native values to normalized
/// amplitudes, in order.
pub fn normalize_block(data: &Vec<i64>, format: SampleFormat) -> (out: Vec<i64>)
    requires
        forall|i: int| 0 <= i < data@.len() ==> format.representable(data@[i] as int),
    ensures
        out@.len() == data@.len(),
        forall|i: int| 0 <= i < out@.len() ==> out@[i] == norm_spec(data@[i] as int, format),
        forall|i: int| 0 <= i < out@.len() ==> -MAX_AMP <= #[trigger] out@[i] <= MAX_AMP,
        out@ == normalized_seq(data@, format),
{
    let mut out: Vec<i64> = Vec::new();
    let mut i: usize = 0;
    while i < data.len()
        invariant
            i <= data@.len(),
            out@.len() == i,
            forall|j: int| 0 <= j < data@.len() ==> format.representable(data@[j] as int),
            forall|j: int| 0 <= j < i ==> out@[j] == norm_spec(data@[j] as int, format),
            forall|j: int| 0 <= j < i ==> -MAX_AMP <= #[trigger] out@[j] <= MAX_AMP,
        decreases data@.len() - i,
    {
        let q = normalize(data[i], format);
        out.push(q);
        i = i + 1;
    }
    proof {
        assert(out@ =~= normalized_seq(data@, format));
    }
    out
}

/// Converts a whole block of normalized amplitudes back to native values of
/// the format, in order.
pub fn denormalize_block(data: &Vec<i64>, format: SampleFormat) -> (out: Vec<i64>)
    requires
        forall|i: int| 0 <= i < data@.len() ==> -MAX_AMP <= #[trigger] data@[i] <= MAX_AMP,
    ensures
        out@.len() == data@.len(),
        forall|i: int| 0 <= i < out@.len() ==> out@[i] == denorm_spec(data@[i] as int, format),
        forall|i: int| 0 <= i < out@.len() ==> format.representable(out@[i] as int),
{
    let mut out: Vec<i64> = Vec::new();
    let mut i: usize = 0;
    while i < data.len()
        invariant
            i <= data@.len(),
            out@.len() == i,
            forall|j: int| 0 <= j < data@.len() ==> -MAX_AMP <= #[trigger] data@[j] <= MAX_AMP,
            forall|j: int| 0 <= j < i ==> out@[j] == denorm_spec(data@[j] as int, format),
            forall|j: int| 0 <= j < i ==> format.representable(out@[j] as int),
        decreases data@.len() - i,
    {
        let x = denormalize(data[i], format);
        out.push(x);
        i = i + 1;
    }
    out
}

/// Makes the sign of a 24-bit sample explicit: the sample arrives in the
/// low 24 bits of its 32-bit container, and a value at or above half the
/// container range is a negative sample.
pub fn sign_extend_24(raw: i32) -> (x: i64)
    requires
        0 <= raw < 0x100_0000,
    ensures
        x == (if raw >= 0x80_0000 { raw - 0x100_0000 } else { raw as int }),
        SampleFormat::Int24.representable(x as int),
{
    if raw >= 0x80_0000 {
        (raw as i64) - 0x100_0000
    } else {
        raw as i64
    }
}

/// Makes the signs of a whole block of container-packed 24-bit samples
/// explicit, in order.
pub fn sign_extend_24_block(raw: &Vec<i32>) -> (out: Vec<i64>)
    requires
        forall|i: int| 0 <= i < raw@.len() ==> 0 <= #[trigger] raw@[i] < 0x100_0000,
    ensures
        out@.len() == raw@.len(),
        forall|i: int|
            0 <= i < out@.len() ==> out@[i] == (if raw@[i] >= 0x80_0000 {
                raw@[i] - 0x100_0000
            } else {
                raw@[i] as int
            }),
        forall|i: int|
            0 <= i < out@.len() ==> SampleFormat::Int24.representable(#[trigger] out@[i] as int),
{
    let mut out: Vec<i64> = Vec::new();
    let mut i: usize = 0;
    while i < raw.len()
        invariant
            i <= raw@.len(),
            out@.len() == i,
            forall|j: int| 0 <= j < raw@.len() ==> 0 <= #[trigger] raw@[j] < 0x100_0000,
            forall|j: int|
                0 <= j < i ==> out@[j] == (if raw@[j] >= 0x80_0000 {
                    raw@[j] - 0x100_0000
                } else {
                    raw@[j] as int
                }),
            forall|j: int|
                0 <= j < i ==> SampleFormat::Int24.representable(#[trigger] out@[j] as int),
        decreases raw@.len() - i,
    {
        let x = sign_extend_24(raw[i]);
        out.push(x);
        i = i + 1;
    }
    out
}

} // verus!
