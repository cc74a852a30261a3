//! Level meter: RMS and peak of a sample window, stateless across
//! invocations.
//!
//! RMS is the square root of the mean square, computed exactly on the
//! fixed-point amplitudes and rounded down to a whole fixed-point step.
//! The display works in decibels, `20*log10(rms)`; a silent window has no
//! finite decibel value, so the meter classifies it as the negative
//! infinity sentinel instead of handing the renderer a zero to take the
//! logarithm of.

use vstd::prelude::*;

verus! {

use crate::config::MAX_AMP;
use crate::frames::{channel_of, extract_channel};
use vstd::arithmetic::div_mod::lemma_multiply_divide_le;

/// The magnitude of an amplitude.
pub open spec fn abs_amp(x: int) -> int {
    if x < 0 {
        -x
    } else {
        x
    }
}

/// The sum of the squares of a window.
pub open spec fn sum_squares(s: Seq<i64>) -> int
    decreases s.len(),
{
    if s.len() == 0 {
        0
    } else {
        sum_squares(s.drop_last()) + s.last() * s.last()
    }
}

/// The largest magnitude in a window; zero for an empty window.
pub open spec fn peak_of(s: Seq<i64>) -> int
    decreases s.len(),
{
    if s.len() == 0 {
        0
    } else if abs_amp(s.last() as int) > peak_of(s.drop_last()) {
        abs_amp(s.last() as int)
    } else {
        peak_of(s.drop_last())
    }
}

/// The mean square of a window; zero for an empty window.
pub open spec fn mean_square(s: Seq<i64>) -> int {
    if s.len() == 0 {
        0
    } else {
        sum_squares(s) / s.len() as int
    }
}

/// Law: every sample of a silent window is zero, so its sum of squares and
/// its peak are both zero.
pub proof fn lemma_meter_silence(s: Seq<i64>)
    requires
        forall|i: int| 0 <= i < s.len() ==> #[trigger] s[i] == 0,
    ensures
        sum_squares(s) == 0,
        peak_of(s) == 0,
        mean_square(s) == 0,
    decreases s.len(),
{
    if s.len() == 0 {
    } else {
        lemma_meter_silence(s.drop_last());
    }
}

/// The whole floor of the square root: the largest integer whose square
/// does not exceed the argument.
pub fn isqrt(v: u128) -> (r: u64)
    requires
        v < 0x1_0000_0000_0000_0000_0000,
    ensures
        r * r <= v < (r + 1) * (r + 1),
{
    if v == 0 {
        return 0;
    }
    let mut lo: u64 = 0;
    let mut hi: u64 = 0x100_0000_0000;
    while hi - lo > 1
        invariant
            lo < hi <= 0x100_0000_0000,
            lo * lo <= v,
            v < hi * hi,
        decreases hi - lo,
    {
        let mid = lo + (hi - lo) / 2;
        proof {
            assert(mid * mid < 0x1_0000_0000_0000_0000_0000_0000) by (nonlinear_arith)
                requires
                    mid <= 0x100_0000_0000,
            ;
        }
        let sq: u128 = (mid as u128) * (mid as u128);
        if sq <= v {
            lo = mid;
        } else {
            hi = mid;
        }
    }
    lo
}

/// What the meter reports of one window: root-mean-square and peak
/// magnitude, both in fixed-point steps.
#[derive(Clone, Copy, PartialEq, Eq, Structural, Debug)]
pub struct Level {
    pub rms: u64,
    pub peak: u64,
}

impl Level {
    /// The meter's contract on a window: the peak is the largest magnitude
    /// and the RMS is the rounded-down square root of the mean square.
    pub open spec fn measures(self, s: Seq<i64>) -> bool {
        &&& self.peak == peak_of(s)
        &&& self.rms * self.rms <= mean_square(s) < (self.rms + 1) * (self.rms + 1)
    }
}

/// Meters one window of samples: RMS and peak per the module note. An
/// empty window reads as silence.
pub fn meter(window: &Vec<i64>) -> (level: Level)
    requires
        forall|i: int| 0 <= i < window@.len() ==> -MAX_AMP <= #[trigger] window@[i] <= MAX_AMP,
        window@.len() <= 0x1_0000_0000,
    ensures
        level.measures(window@),
{
    let mut sum: u128 = 0;
    let mut peak: u64 = 0;
    let mut i: usize = 0;
    while i < window.len()
        invariant
            i <= window@.len(),
            window@.len() <= 0x1_0000_0000,
            forall|j: int| 0 <= j < window@.len() ==> -MAX_AMP <= #[trigger] window@[j] <= MAX_AMP,
            sum == sum_squares(window@.take(i as int)),
            sum <= i * ((MAX_AMP * MAX_AMP) as int),
            peak == peak_of(window@.take(i as int)),
        decreases window@.len() - i,
    {
        let x = window[i];
        let mag: u64 = if x < 0 {
            (-x) as u64
        } else {
            x as u64
        };
        proof {
            assert(window@.take(i + 1).drop_last() =~= window@.take(i as int));
            assert(window@.take(i + 1).last() == window@[i as int]);
            assert(mag * mag <= (MAX_AMP * MAX_AMP) as int) by (nonlinear_arith)
                requires
                    0 <= mag <= MAX_AMP,
            ;
            assert((i + 1) * ((MAX_AMP * MAX_AMP) as int) == i * ((MAX_AMP * MAX_AMP) as int)
                + (MAX_AMP * MAX_AMP) as int) by (nonlinear_arith);
            assert(mag as int * mag as int == window@[i as int] as int * window@[i as int] as int)
                by (nonlinear_arith)
                requires
                    mag == abs_amp(window@[i as int] as int),
            ;
        }
        sum = sum + (mag as u128) * (mag as u128);
        if mag > peak {
            peak = mag;
        }
        i = i + 1;
    }
    proof {
        assert(window@.take(window@.len() as int) =~= window@);
    }
    let rms: u64;
    if window.len() == 0 {
        rms = 0;
        proof {
            assert(mean_square(window@) == 0);
        }
    } else {
        let mean: u128 = sum / (window.len() as u128);
        proof {
            lemma_multiply_divide_le(sum as int, window@.len() as int, (MAX_AMP * MAX_AMP) as int);
            assert(mean == mean_square(window@));
        }
        rms = isqrt(mean);
        proof {
            assert(rms * rms <= mean_square(window@));
            assert(mean_square(window@) < (rms + 1) * (rms + 1));
        }
    }
    Level { rms, peak }
}

/// The decibel display of an RMS value: a silent window has no finite
/// level, so it reads as the negative-infinity sentinel and never reaches
/// the logarithm.
#[derive(Clone, Copy, PartialEq, Eq, Structural, Debug)]
pub enum DbReading {
    NegativeInfinity,
    Finite,
}

/// Classifies an RMS value for the decibel display: the sentinel exactly
/// for silence.
pub fn db_reading(rms: u64) -> (d: DbReading)
    ensures
        d is NegativeInfinity <==> rms == 0,
{
    if rms == 0 {
        DbReading::NegativeInfinity
    } else {
        DbReading::Finite
    }
}

/// Meters every channel of an interleaved window separately.
pub fn meter_channels(window: &Vec<i64>, channels: usize) -> (levels: Vec<Level>)
    requires
        channels >= 1,
        forall|i: int| 0 <= i < window@.len() ==> -MAX_AMP <= #[trigger] window@[i] <= MAX_AMP,
        window@.len() <= 0x1_0000_0000,
        window@.len() + channels <= usize::MAX,
    ensures
        levels@.len() == channels,
        forall|c: int|
            0 <= c < channels ==> #[trigger] levels@[c].measures(
                channel_of(window@, channels as int, c),
            ),
{
    let mut levels: Vec<Level> = Vec::new();
    let mut c: usize = 0;
    while c < channels
        invariant
            channels >= 1,
            forall|i: int| 0 <= i < window@.len() ==> -MAX_AMP <= #[trigger] window@[i] <= MAX_AMP,
            window@.len() <= 0x1_0000_0000,
            window@.len() + channels <= usize::MAX,
            c <= channels,
            levels@.len() == c,
            forall|j: int|
                0 <= j < c ==> #[trigger] levels@[j].measures(
                    channel_of(window@, channels as int, j),
                ),
        decreases channels - c,
    {
        let ch = extract_channel(window, channels, c);
        proof {
            assert forall|i: int| 0 <= i < ch@.len() implies -MAX_AMP <= #[trigger] ch@[i]
                <= MAX_AMP by {
                crate::frames::lemma_channel_of_index(window@, channels as int, c as int, i);
            }
        }
        let level = meter(&ch);
        levels.push(level);
        c = c + 1;
    }
    levels
}

/// The samples the recording display draws: the most recent
/// `width * 128` samples, or all of them when fewer have arrived.
pub open spec fn display_tail(s: Seq<i64>, width: int) -> Seq<i64> {
    if s.len() <= width * 128 {
        s
    } else {
        s.skip(s.len() - width * 128)
    }
}

/// One display chunk: up to 128 consecutive samples of the drawn tail.
pub open spec fn display_chunk(tail: Seq<i64>, i: int) -> Seq<i64> {
    tail.subrange(
        i * 128,
        if i * 128 + 128 <= tail.len() {
            i * 128 + 128
        } else {
            tail.len() as int
        },
    )
}

/// Reduces the most recent samples to one RMS value per 128-sample chunk,
/// one chart point per chunk: what the recording display plots.
pub fn waveform_rms_points(samples: &Vec<i64>, width: usize) -> (points: Vec<u64>)
    requires
        forall|i: int| 0 <= i < samples@.len() ==> -MAX_AMP <= #[trigger] samples@[i] <= MAX_AMP,
        width * 128 <= usize::MAX,
    ensures
        points@.len() == (display_tail(samples@, width as int).len() + 127) / 128,
        forall|i: int|
            0 <= i < points@.len() ==> {
                let chunk = display_chunk(display_tail(samples@, width as int), i);
                (#[trigger] points@[i]) * points@[i] <= mean_square(chunk) < (points@[i] + 1) * (
                points@[i] + 1)
            },
{
    let len = samples.len();
    let limit = width * 128;
    let used = if limit < len {
        limit
    } else {
        len
    };
    let start = len - used;
    let ghost tail = display_tail(samples@, width as int);
    proof {
        assert(tail =~= samples@.skip(start as int));
        assert(tail.len() == used);
    }
    let mut points: Vec<u64> = Vec::new();
    let mut pos: usize = start;
    let ghost mut k: int = 0;
    while pos < len
        invariant
            len == samples@.len(),
            start <= pos <= len,
            forall|j: int| 0 <= j < samples@.len() ==> -MAX_AMP <= #[trigger] samples@[j] <= MAX_AMP,
            tail == display_tail(samples@, width as int),
            tail =~= samples@.skip(start as int),
            tail.len() == len - start,
            k >= 0,
            pos == len || pos == start + k * 128,
            pos == len ==> start + k * 128 >= len,
            k > 0 ==> start + (k - 1) * 128 < len,
            points@.len() == k,
            forall|i: int|
                0 <= i < k ==> {
                    let chunk = display_chunk(tail, i);
                    (#[trigger] points@[i]) * points@[i] <= mean_square(chunk) < (points@[i] + 1)
                        * (points@[i] + 1)
                },
        decreases len - pos,
    {
        let end = if len - pos < 128 {
            len
        } else {
            pos + 128
        };
        let mut chunk: Vec<i64> = Vec::new();
        let mut j: usize = pos;
        while j < end
            invariant
                pos <= j <= end <= len,
                len == samples@.len(),
                forall|q: int|
                    0 <= q < samples@.len() ==> -MAX_AMP <= #[trigger] samples@[q] <= MAX_AMP,
                chunk@.len() == j - pos,
                chunk@ =~= samples@.subrange(pos as int, j as int),
                forall|q: int| 0 <= q < chunk@.len() ==> -MAX_AMP <= #[trigger] chunk@[q] <= MAX_AMP,
            decreases end - j,
        {
            proof {
                assert(samples@.subrange(pos as int, j as int).push(samples@[j as int])
                    =~= samples@.subrange(pos as int, j + 1));
            }
            chunk.push(samples[j]);
            j = j + 1;
        }
        let level = meter(&chunk);
        proof {
            assert(chunk@ =~= display_chunk(tail, k)) by {
                assert((k * 128 + 128 <= tail.len()) == (end == pos + 128 && end <= len && len - pos
                    >= 128));
                assert(chunk@ =~= samples@.subrange(pos as int, end as int));
                assert(display_chunk(tail, k) =~= samples@.subrange(pos as int, end as int));
            }
            assert((k + 1) * 128 == k * 128 + 128) by (nonlinear_arith);
            k = k + 1;
        }
        points.push(level.rms);
        pos = if len - pos < 128 {
            len
        } else {
            pos + 128
        };
    }
    proof {
        if k == 0 {
            assert(tail.len() == 0);
        } else {
            assert(start + (k - 1) * 128 < len);
            assert(start + k * 128 >= len);
            let r = (used as int) - 1 - (k - 1) * 128;
            assert(0 <= r < 128);
            vstd::arithmetic::div_mod::lemma_fundamental_div_mod_converse(
                used as int - 1,
                128,
                k - 1,
                r,
            );
            assert((tail.len() + 127) / 128 == k);
        }
    }
    points
}

} // verus!
