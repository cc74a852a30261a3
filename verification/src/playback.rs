//! Playback pipeline: a decoded WAV sample stream is adapted to the
//! device's channel layout, resampled to its rate once before streaming
//! starts, and then served frame by frame from a shared cursor.
//!
//! The cursor wraps on exhaustion as a safety net; normal termination is
//! driven by the elapsed time reaching the file's nominal duration, not by
//! wraparound.

use vstd::prelude::*;

verus! {

use crate::config::{AudioError, MAX_AMP};
use crate::frames::copy_samples;
use crate::resample::{resample, resampled_len, resampled_seq};
use vstd::arithmetic::div_mod::{
    lemma_add_mod_noop,
    lemma_div_is_ordered,
    lemma_mod_self_0,
    lemma_multiply_divide_lt,
    lemma_small_mod,
};
use vstd::arithmetic::mul::lemma_mul_nonnegative;

/// The channel layouts the pipeline reconciles: a file already matching
/// the device, or a mono file on a stereo device. Nothing else is
/// attempted.
pub open spec fn layouts_compatible(file_channels: int, device_channels: int) -> bool {
    file_channels == device_channels || (file_channels == 1 && device_channels == 2)
}

/// Adapts decoded per-channel data to the device's channel layout: a
/// matching layout passes through, a mono file on a stereo device has its
/// one channel duplicated onto both, and any other pairing is refused
/// before any stream starts.
pub fn adapt_channels(channels: Vec<Vec<i64>>, device_channels: usize) -> (r: Result<
    Vec<Vec<i64>>,
    AudioError,
>)
    ensures
        r is Ok <==> layouts_compatible(channels@.len() as int, device_channels as int),
        r matches Err(e) ==> e == AudioError::ChannelMismatch,
        r matches Ok(out) ==> out@.len() == device_channels,
        channels@.len() == device_channels ==> (r matches Ok(out) ==> out@ == channels@),
        channels@.len() == 1 && device_channels == 2 ==> (r matches Ok(out) ==> out@[0]@
            == channels@[0]@ && out@[1]@ == channels@[0]@),
{
    if channels.len() == device_channels {
        Ok(channels)
    } else if channels.len() == 1 && device_channels == 2 {
        let duplicate = copy_samples(&channels[0]);
        let mut out = channels;
        out.push(duplicate);
        Ok(out)
    } else {
        Err(AudioError::ChannelMismatch)
    }
}

/// Law: a mono stream adapted to a stereo device carries the same sample
/// sequence on both output channels.
pub proof fn lemma_mono_duplication(
    channels: Seq<Vec<i64>>,
    out: Seq<Vec<i64>>,
    device_channels: int,
)
    requires
        channels.len() == 1,
        device_channels == 2,
        out.len() == 2,
        out[0]@ == channels[0]@,
        out[1]@ == channels[0]@,
    ensures
        out[0]@ == out[1]@,
{
}

/// An output stream position served from a per-channel sample store; owns
/// the resampled data and a wrapping cursor.
pub struct PlaybackSession {
    channels: Vec<Vec<i64>>,
    position: usize,
}

impl PlaybackSession {
    /// The samples of one output channel.
    pub closed spec fn channel_spec(self, c: int) -> Seq<i64> {
        self.channels@[c]@
    }

    /// How many channels the session serves.
    pub closed spec fn channel_count_spec(self) -> nat {
        self.channels@.len()
    }

    /// How many frames each channel holds.
    pub closed spec fn length_spec(self) -> nat {
        self.channels@[0]@.len()
    }

    /// The cursor: the next frame to serve.
    pub closed spec fn position_spec(self) -> nat {
        self.position as nat
    }

    /// A session serves at least one channel, every channel holds the same
    /// positive number of frames of bounded amplitude, and the cursor
    /// stands on a frame.
    pub closed spec fn wf(self) -> bool {
        &&& self.channels@.len() >= 1
        &&& self.channels@[0]@.len() >= 1
        &&& forall|c: int|
            0 <= c < self.channels@.len() ==> (#[trigger] self.channels@[c]@).len()
                == self.channels@[0]@.len()
        &&& forall|c: int, k: int|
            0 <= c < self.channels@.len() && 0 <= k < self.channels@[0]@.len() ==> -MAX_AMP <= (
            #[trigger] self.channels@[c]@[k]) <= MAX_AMP
        &&& self.position < self.channels@[0]@.len()
    }

    /// Builds the session for an output stream: the decoded channels are
    /// adapted to the device layout, then each is resampled from the
    /// file's rate to the device's, and the cursor starts at the first
    /// frame. Fails exactly on an irreconcilable channel layout, before
    /// any stream exists.
    pub fn prepare(
        channels: Vec<Vec<i64>>,
        file_rate: u32,
        device_rate: u32,
        device_channels: usize,
    ) -> (r: Result<PlaybackSession, AudioError>)
        requires
            file_rate >= 1,
            device_rate >= 1,
            channels@.len() >= 1,
            channels@[0]@.len() >= 1,
            forall|c: int|
                0 <= c < channels@.len() ==> (#[trigger] channels@[c]@).len()
                    == channels@[0]@.len(),
            forall|c: int, k: int|
                0 <= c < channels@.len() && 0 <= k < channels@[0]@.len() ==> -MAX_AMP <= (
                #[trigger] channels@[c]@[k]) <= MAX_AMP,
            channels@[0]@.len() * device_rate + file_rate <= usize::MAX,
        ensures
            r is Ok <==> layouts_compatible(channels@.len() as int, device_channels as int),
            r matches Err(e) ==> e == AudioError::ChannelMismatch,
            r matches Ok(s) ==> {
                &&& s.wf()
                &&& s.position_spec() == 0
                &&& s.channel_count_spec() == device_channels
                &&& s.length_spec() == resampled_len(
                    channels@[0]@.len() as int,
                    file_rate as int,
                    device_rate as int,
                )
            },
            channels@.len() == device_channels ==> (r matches Ok(s) ==> forall|c: int|
                0 <= c < device_channels ==> s.channel_spec(c) == resampled_seq(
                    channels@[c]@,
                    file_rate as int,
                    device_rate as int,
                )),
            channels@.len() == 1 && device_channels == 2 ==> (r matches Ok(s) ==> forall|c: int|
                0 <= c < 2 ==> s.channel_spec(c) == resampled_seq(
                    channels@[0]@,
                    file_rate as int,
                    device_rate as int,
                )),
    {
        let ghost frame_count = channels@[0]@.len() as int;
        let adapted = match adapt_channels(channels, device_channels) {
            Ok(adapted) => adapted,
            Err(e) => {
                return Err(e);
            },
        };
        let mut resampled: Vec<Vec<i64>> = Vec::new();
        let mut c: usize = 0;
        proof {
            assert(frame_count * device_rate >= 1) by (nonlinear_arith)
                requires
                    frame_count >= 1,
                    device_rate >= 1,
            ;
            lemma_div_is_ordered(
                file_rate as int,
                frame_count * device_rate + file_rate - 1,
                file_rate as int,
            );
            vstd::arithmetic::div_mod::lemma_div_by_self(file_rate as int);
            lemma_mul_nonnegative(frame_count, device_rate as int);
        }
        while c < adapted.len()
            invariant
                file_rate >= 1,
                device_rate >= 1,
                c <= adapted@.len(),
                resampled@.len() == c,
                frame_count >= 1,
                forall|j: int|
                    0 <= j < adapted@.len() ==> (#[trigger] adapted@[j]@).len() == frame_count,
                forall|j: int, k: int|
                    0 <= j < adapted@.len() && 0 <= k < frame_count ==> -MAX_AMP <= (
                    #[trigger] adapted@[j]@[k]) <= MAX_AMP,
                frame_count * device_rate + file_rate <= usize::MAX,
                forall|j: int|
                    0 <= j < c ==> (#[trigger] resampled@[j]@) == resampled_seq(
                        adapted@[j]@,
                        file_rate as int,
                        device_rate as int,
                    ),
                forall|j: int|
                    0 <= j < c ==> (#[trigger] resampled@[j]@).len() == resampled_len(
                        frame_count,
                        file_rate as int,
                        device_rate as int,
                    ),
                forall|j: int, k: int|
                    0 <= j < c && 0 <= k < resampled@[j]@.len() ==> -MAX_AMP <= (
                    #[trigger] resampled@[j]@[k]) <= MAX_AMP,
            decreases adapted@.len() - c,
        {
            let channel = resample(&adapted[c], file_rate, device_rate);
            resampled.push(channel);
            c = c + 1;
        }
        proof {
            assert(resampled_len(frame_count, file_rate as int, device_rate as int) >= 1) by {
                assert(frame_count * device_rate >= 1) by (nonlinear_arith)
                    requires
                        frame_count >= 1,
                        device_rate >= 1,
                ;
                lemma_div_is_ordered(
                    file_rate as int,
                    frame_count * device_rate + file_rate - 1,
                    file_rate as int,
                );
                vstd::arithmetic::div_mod::lemma_div_by_self(file_rate as int);
                assert(frame_count * device_rate >= 1) by (nonlinear_arith)
                    requires
                        frame_count >= 1,
                        device_rate >= 1,
                ;
            }
        }
        Ok(PlaybackSession { channels: resampled, position: 0 })
    }

    /// Serves the next frame: one sample per channel at the cursor, which
    /// then advances and wraps on exhaustion.
    pub fn next_frame(&mut self) -> (frame: Vec<i64>)
        requires
            old(self).wf(),
        ensures
            final(self).wf(),
            frame@.len() == old(self).channel_count_spec(),
            forall|c: int|
                0 <= c < frame@.len() ==> frame@[c] == old(self).channel_spec(c)[old(
                    self,
                ).position_spec() as int],
            forall|c: int| 0 <= c < frame@.len() ==> -MAX_AMP <= #[trigger] frame@[c] <= MAX_AMP,
            final(self).position_spec() == (old(self).position_spec() + 1) % old(
                self,
            ).length_spec(),
            final(self).channel_count_spec() == old(self).channel_count_spec(),
            final(self).length_spec() == old(self).length_spec(),
            forall|c: int|
                0 <= c < old(self).channel_count_spec() ==> final(self).channel_spec(c) == old(
                    self,
                ).channel_spec(c),
    {
        let mut frame: Vec<i64> = Vec::new();
        let mut c: usize = 0;
        while c < self.channels.len()
            invariant
                self.wf(),
                c <= self.channels@.len(),
                frame@.len() == c,
                forall|j: int|
                    0 <= j < c ==> frame@[j] == self.channels@[j]@[self.position as int],
                forall|j: int| 0 <= j < c ==> -MAX_AMP <= #[trigger] frame@[j] <= MAX_AMP,
            decreases self.channels@.len() - c,
        {
            let channel = &self.channels[c];
            frame.push(channel[self.position]);
            c = c + 1;
        }
        let len = self.channels[0].len();
        proof {
            if self.position + 1 < len {
                lemma_small_mod((self.position + 1) as nat, len as nat);
            } else {
                lemma_mod_self_0(len as int);
            }
        }
        if self.position + 1 < len {
            self.position = self.position + 1;
        } else {
            self.position = 0;
        }
        frame
    }

    /// Serves a run of consecutive frames, wrapping on exhaustion, for one
    /// output callback to interleave into its buffer.
    pub fn fill_frames(&mut self, count: usize) -> (out: Vec<Vec<i64>>)
        requires
            old(self).wf(),
        ensures
            final(self).wf(),
            out@.len() == count,
            forall|f: int|
                0 <= f < count ==> (#[trigger] out@[f]@).len() == old(self).channel_count_spec(),
            forall|f: int, c: int|
                0 <= f < count && 0 <= c < old(self).channel_count_spec() ==> (
                #[trigger] out@[f]@[c]) == old(self).channel_spec(c)[(old(self).position_spec() + f)
                    % old(self).length_spec() as int],
            final(self).position_spec() == (old(self).position_spec() + count) % (old(
                self,
            ).length_spec() as int),
            final(self).channel_count_spec() == old(self).channel_count_spec(),
            final(self).length_spec() == old(self).length_spec(),
            forall|c: int|
                0 <= c < old(self).channel_count_spec() ==> final(self).channel_spec(c) == old(
                    self,
                ).channel_spec(c),
    {
        let ghost len = old(self).length_spec() as int;
        let mut out: Vec<Vec<i64>> = Vec::new();
        let mut f: usize = 0;
        proof {
            lemma_small_mod(old(self).position_spec(), old(self).length_spec());
        }
        while f < count
            invariant
                self.wf(),
                f <= count,
                out@.len() == f,
                len == old(self).length_spec(),
                self.channel_count_spec() == old(self).channel_count_spec(),
                self.length_spec() == old(self).length_spec(),
                forall|c: int|
                    0 <= c < old(self).channel_count_spec() ==> self.channel_spec(c) == old(
                        self,
                    ).channel_spec(c),
                self.position_spec() == (old(self).position_spec() + f) % len,
                forall|g: int|
                    0 <= g < f ==> (#[trigger] out@[g]@).len() == old(self).channel_count_spec(),
                forall|g: int, c: int|
                    0 <= g < f && 0 <= c < old(self).channel_count_spec() ==> (
                    #[trigger] out@[g]@[c]) == old(self).channel_spec(c)[(old(
                        self,
                    ).position_spec() + g) % len],
            decreases count - f,
        {
            let ghost pos_before = self.position_spec() as int;
            let frame = self.next_frame();
            proof {
                lemma_add_mod_noop(old(self).position_spec() + f, 1, len);
                if len == 1 {
                } else {
                    lemma_small_mod(1nat, len as nat);
                }
            }
            out.push(frame);
            f = f + 1;
        }
        out
    }
}

/// The nominal duration of a file in milliseconds: frame count over rate.
pub fn file_duration_ms(frames: u64, rate: u32) -> (ms: u64)
    requires
        rate >= 1,
        frames <= 0x20_0000_0000_0000,
    ensures
        ms == frames * 1000 / (rate as int),
{
    proof {
        vstd::arithmetic::div_mod::lemma_div_nonincreasing((frames * 1000) as int, rate as int);
        vstd::arithmetic::div_mod::lemma_div_pos_is_pos((frames * 1000) as int, rate as int);
    }
    (frames * 1000) / (rate as u64)
}

/// Whether playback is over: the elapsed time has reached the nominal
/// duration.
pub fn playback_finished(elapsed_ms: u64, duration_ms: u64) -> (done: bool)
    ensures
        done <==> elapsed_ms >= duration_ms,
{
    elapsed_ms >= duration_ms
}

/// Playback progress as a whole percentage, saturating at one hundred.
pub fn progress_percent(elapsed_ms: u64, duration_ms: u64) -> (p: u64)
    requires
        duration_ms >= 1,
    ensures
        p == if elapsed_ms * 100 / (duration_ms as int) >= 100 {
            100int
        } else {
            elapsed_ms * 100 / (duration_ms as int)
        },
{
    let q: u128 = (elapsed_ms as u128) * 100 / (duration_ms as u128);
    if q >= 100 {
        100
    } else {
        q as u64
    }
}

/// Picks `width` evenly spaced samples of a channel for the waveform
/// preview: sample `i` of the preview reads position `i * len / width`.
pub fn preview_samples(channel: &Vec<i64>, width: usize) -> (out: Vec<i64>)
    requires
        width >= 1,
        channel@.len() >= 1,
        channel@.len() * width <= usize::MAX,
    ensures
        out@.len() == width,
        forall|i: int|
            0 <= i < width ==> #[trigger] out@[i] == channel@[i * channel@.len() as int
                / width as int],
{
    let len = channel.len();
    let mut out: Vec<i64> = Vec::new();
    let mut i: usize = 0;
    while i < width
        invariant
            width >= 1,
            len == channel@.len(),
            len >= 1,
            channel@.len() * width <= usize::MAX,
            i <= width,
            out@.len() == i,
            forall|j: int|
                0 <= j < i ==> #[trigger] out@[j] == channel@[j * channel@.len() as int
                    / width as int],
        decreases width - i,
    {
        proof {
            lemma_mul_nonnegative(i as int, len as int);
            assert((i as int) * (len as int) < (width as int) * (len as int)) by (nonlinear_arith)
                requires
                    0 <= i < width,
                    len >= 1,
            ;
            assert((i as int) * (len as int) <= channel@.len() * width) by (nonlinear_arith)
                requires
                    0 <= i < width,
                    len == channel@.len(),
                    len >= 1,
            ;
            lemma_multiply_divide_lt((i as int) * (len as int), width as int, len as int);
            vstd::arithmetic::div_mod::lemma_div_pos_is_pos((i as int) * (len as int), width as int);
        }
        let index = (i * len) / width;
        out.push(channel[index]);
        i = i + 1;
    }
    out
}

} // verus!
