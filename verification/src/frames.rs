//! Frame utilities: an audio block interleaves one sample per channel at
//! each instant; these functions take the block apart by channel.

use vstd::prelude::*;

verus! {

use vstd::arithmetic::div_mod::{lemma_fundamental_div_mod, lemma_fundamental_div_mod_converse};
use vstd::arithmetic::mul::{lemma_mul_inequality, lemma_mul_nonnegative};

/// How many samples of channel `c` an interleaved block of `total` samples
/// over `channels` channels holds.
pub open spec fn channel_len(total: int, channels: int, c: int) -> int
    recommends
        channels >= 1,
        0 <= c < channels,
{
    if total <= c {
        0
    } else {
        (total - c - 1) / channels + 1
    }
}

/// The samples of channel `c` in an interleaved block, in time order.
pub open spec fn channel_of(s: Seq<i64>, channels: int, c: int) -> Seq<i64>
    recommends
        channels >= 1,
        0 <= c < channels,
{
    Seq::new(channel_len(s.len() as int, channels, c) as nat, |k: int| s[k * channels + c])
}

/// Every position of a channel sequence reads a valid position of the
/// interleaved block.
pub proof fn lemma_channel_of_index(s: Seq<i64>, channels: int, c: int, k: int)
    requires
        channels >= 1,
        0 <= c < channels,
        0 <= k < channel_of(s, channels, c).len(),
    ensures
        0 <= k * channels + c < s.len(),
        channel_of(s, channels, c)[k] == s[k * channels + c],
{
    let total = s.len() as int;
    let q = (total - c - 1) / channels;
    lemma_mul_nonnegative(k, channels);
    lemma_mul_inequality(k, q, channels);
    lemma_fundamental_div_mod(total - c - 1, channels);
    vstd::arithmetic::div_mod::lemma_mod_division_less_than_divisor(total - c - 1, channels);
    assert(q * channels <= total - c - 1);
}

/// Copies one channel out of an interleaved block.
pub fn extract_channel(data: &Vec<i64>, channels: usize, c: usize) -> (out: Vec<i64>)
    requires
        channels >= 1,
        c < channels,
        data@.len() + channels <= usize::MAX,
    ensures
        out@ == channel_of(data@, channels as int, c as int),
        out@.len() <= data@.len(),
{
    let ghost total = data@.len() as int;
    let mut out: Vec<i64> = Vec::new();
    let mut i: usize = c;
    let ghost mut k: int = 0;
    while i < data.len()
        invariant
            channels >= 1,
            c < channels,
            data@.len() + channels <= usize::MAX,
            k >= 0,
            i == c + k * channels,
            out@.len() == k,
            forall|j: int| 0 <= j < k ==> out@[j] == data@[j * (channels as int) + c],
            k > 0 ==> c + (k - 1) * channels < data@.len(),
        decreases data@.len() + channels - i,
    {
        out.push(data[i]);
        proof {
            assert((k + 1) * (channels as int) == k * (channels as int) + channels)
                by (nonlinear_arith);
            k = k + 1;
        }
        i = i + channels;
    }
    proof {
        if out@.len() == 0 {
            assert(total <= c);
        } else {
            let kk = out@.len() as int;
            let ch = channels as int;
            assert(c + (kk - 1) * ch < total);
            assert(c + kk * ch >= total);
            let r = total - 1 - c - (kk - 1) * ch;
            assert(r < ch) by (nonlinear_arith)
                requires
                    r == total - 1 - c - (kk - 1) * ch,
                    c + kk * ch >= total,
                    ch >= 1,
            ;
            lemma_fundamental_div_mod_converse(total - 1 - c, ch, kk - 1, r);
            assert(kk - 1 <= c + (kk - 1) * ch) by (nonlinear_arith)
                requires
                    ch >= 1,
                    c >= 0,
                    kk >= 1,
            ;
        }
        assert(out@ =~= channel_of(data@, channels as int, c as int));
    }
    out
}

/// Takes an interleaved block apart into one sample sequence per channel.
pub fn deinterleave(data: &Vec<i64>, channels: usize) -> (out: Vec<Vec<i64>>)
    requires
        channels >= 1,
        data@.len() + channels <= usize::MAX,
    ensures
        out@.len() == channels,
        forall|c: int|
            0 <= c < channels ==> #[trigger] out@[c]@ == channel_of(data@, channels as int, c),
{
    let mut out: Vec<Vec<i64>> = Vec::new();
    let mut c: usize = 0;
    while c < channels
        invariant
            channels >= 1,
            data@.len() + channels <= usize::MAX,
            c <= channels,
            out@.len() == c,
            forall|j: int|
                0 <= j < c ==> #[trigger] out@[j]@ == channel_of(data@, channels as int, j),
        decreases channels - c,
    {
        let ch = extract_channel(data, channels, c);
        out.push(ch);
        c = c + 1;
    }
    out
}

/// Copies a sample sequence.
pub fn copy_samples(data: &Vec<i64>) -> (out: Vec<i64>)
    ensures
        out@ == data@,
{
    let mut out: Vec<i64> = Vec::new();
    let mut i: usize = 0;
    while i < data.len()
        invariant
            i <= data@.len(),
            out@ =~= data@.take(i as int),
        decreases data@.len() - i,
    {
        out.push(data[i]);
        i = i + 1;
    }
    proof {
        assert(data@.take(data@.len() as int) =~= data@);
    }
    out
}

} // verus!
