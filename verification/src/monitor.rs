//! Monitor pipeline: full-duplex passthrough of an independently selected
//! input/output device pair, with level metering published to a display.
//!
//! The two devices must have negotiated equal sample rates — a mismatch is
//! a fatal precondition failure, detected before any stream opens. The
//! input callback shows each normalized sample on the display ring and
//! hands the native sample to a bounded passthrough queue; the output
//! callback drains that queue, substituting silence on underrun. Latency
//! is therefore bounded by the configured buffer length, and overflow or
//! underrun glitches instead of corrupting order.

use vstd::prelude::*;

verus! {

use crate::codec::{normalize_block, normalized_seq};
use crate::config::{AudioError, SampleFormat, SessionState, StreamConfig};
use crate::queue::{drop_count, BoundedQueue};
use crate::ring::{ring_push_all, OverwriteRing};

/// The native formats the monitor accepts from its devices.
pub open spec fn monitor_supported(format: SampleFormat) -> bool {
    format is Float32 || format is Int16
}

/// A running monitor: the two negotiated configurations, the display
/// ring, the bounded passthrough queue, and the session state.
pub struct MonitorSession {
    input: StreamConfig,
    output: StreamConfig,
    display: OverwriteRing,
    passthrough: BoundedQueue,
    state: SessionState,
}

impl MonitorSession {
    /// The negotiated input configuration.
    pub closed spec fn input_spec(self) -> StreamConfig {
        self.input
    }

    /// The negotiated output configuration.
    pub closed spec fn output_spec(self) -> StreamConfig {
        self.output
    }

    /// Where the session stands in its life.
    pub closed spec fn state_spec(self) -> SessionState {
        self.state
    }

    /// What the display ring holds.
    pub closed spec fn display_spec(self) -> Seq<i64> {
        self.display@
    }

    /// The display ring's fixed capacity.
    pub closed spec fn display_capacity_spec(self) -> nat {
        self.display.capacity_spec()
    }

    /// What the passthrough queue holds, oldest first.
    pub closed spec fn passthrough_spec(self) -> Seq<i64> {
        self.passthrough@
    }

    /// The passthrough queue's fixed capacity: the configured buffer
    /// length.
    pub closed spec fn buffer_length_spec(self) -> nat {
        self.passthrough.capacity_spec()
    }

    /// A monitor's devices share one sample rate and a supported format,
    /// and both buffers are well formed.
    pub closed spec fn wf(self) -> bool {
        &&& self.input.wf()
        &&& self.output.wf()
        &&& self.input.sample_rate == self.output.sample_rate
        &&& monitor_supported(self.input.format)
        &&& self.display.wf()
        &&& self.passthrough.wf()
    }

    /// Law: passthrough latency is bounded — the queue never holds more
    /// than the configured buffer length.
    pub proof fn lemma_latency_bound(self)
        requires
            self.wf(),
        ensures
            self.passthrough_spec().len() <= self.buffer_length_spec(),
    {
        self.passthrough.lemma_within_capacity();
    }

    /// Opens a monitor session over an input/output device pair. Unequal
    /// sample rates are refused first, then an unsupported native format —
    /// both before any stream or file exists, with no side effects. On
    /// success nothing is buffered yet.
    pub fn new(input: StreamConfig, output: StreamConfig, buffer_length: usize) -> (r: Result<
        MonitorSession,
        AudioError,
    >)
        requires
            input.wf(),
            output.wf(),
            buffer_length >= 1,
        ensures
            r is Ok <==> input.sample_rate == output.sample_rate && monitor_supported(
                input.format,
            ),
            input.sample_rate != output.sample_rate ==> (r matches Err(e) && e
                == AudioError::RateMismatch),
            input.sample_rate == output.sample_rate && !monitor_supported(input.format) ==> (
            r matches Err(e) && e == AudioError::UnsupportedFormat),
            r matches Ok(s) ==> {
                &&& s.wf()
                &&& s.input_spec() == input
                &&& s.output_spec() == output
                &&& s.state_spec() is Starting
                &&& s.display_spec() == Seq::<i64>::empty()
                &&& s.display_capacity_spec() == buffer_length
                &&& s.passthrough_spec() == Seq::<i64>::empty()
                &&& s.buffer_length_spec() == buffer_length
            },
    {
        if input.sample_rate != output.sample_rate {
            return Err(AudioError::RateMismatch);
        }
        if !(matches!(input.format, SampleFormat::Float32) || matches!(
            input.format,
            SampleFormat::Int16,
        )) {
            return Err(AudioError::UnsupportedFormat);
        }
        Ok(
            MonitorSession {
                input,
                output,
                display: OverwriteRing::new(buffer_length),
                passthrough: BoundedQueue::new(buffer_length),
                state: SessionState::Starting,
            },
        )
    }

    /// The duplex stream configuration both streams are opened with: two
    /// channels at the shared rate, in the input's native format.
    pub fn stream_config(&self) -> (config: StreamConfig)
        requires
            self.wf(),
        ensures
            config.channels == 2,
            config.sample_rate == self.input_spec().sample_rate,
            config.format == self.input_spec().format,
            config.wf(),
    {
        StreamConfig {
            channels: 2,
            sample_rate: self.input.sample_rate,
            format: self.input.format,
        }
    }

    /// Both streams are running: the session starts streaming.
    pub fn start(&mut self)
        requires
            old(self).wf(),
            old(self).state_spec() is Starting,
        ensures
            final(self).wf(),
            final(self).state_spec() is Active,
            crate::config::step_allowed(old(self).state_spec(), final(self).state_spec()),
            final(self).input_spec() == old(self).input_spec(),
            final(self).output_spec() == old(self).output_spec(),
            final(self).display_spec() == old(self).display_spec(),
            final(self).display_capacity_spec() == old(self).display_capacity_spec(),
            final(self).passthrough_spec() == old(self).passthrough_spec(),
            final(self).buffer_length_spec() == old(self).buffer_length_spec(),
    {
        self.state = SessionState::Active;
    }

    /// One input callback: shows the normalized block on the display ring
    /// and hands the native samples to the passthrough queue, dropping
    /// what exceeds the free space and reporting how many were lost — the
    /// callback never waits.
    pub fn on_input_block(&mut self, native: &Vec<i64>) -> (dropped: usize)
        requires
            old(self).wf(),
            old(self).state_spec() is Active,
            forall|i: int|
                0 <= i < native@.len() ==> old(self).input_spec().format.representable(
                    #[trigger] native@[i] as int,
                ),
        ensures
            final(self).wf(),
            final(self).state_spec() is Active,
            final(self).input_spec() == old(self).input_spec(),
            final(self).output_spec() == old(self).output_spec(),
            final(self).display_capacity_spec() == old(self).display_capacity_spec(),
            final(self).buffer_length_spec() == old(self).buffer_length_spec(),
            final(self).display_spec() == ring_push_all(
                old(self).display_spec(),
                old(self).display_capacity_spec(),
                normalized_seq(native@, old(self).input_spec().format),
            ),
            dropped == drop_count(
                old(self).passthrough_spec().len(),
                native@.len(),
                old(self).buffer_length_spec(),
            ),
            final(self).passthrough_spec() == old(self).passthrough_spec() + native@.take(
                native@.len() - dropped,
            ),
    {
        let normalized = normalize_block(native, self.input.format);
        self.display.push_all(&normalized);
        self.passthrough.push_burst(native)
    }

    /// One output callback: drains the next `count` samples from the
    /// passthrough queue in arrival order, substituting silence for every
    /// sample the producer has not yet supplied — the callback never
    /// waits.
    pub fn fill_output_block(&mut self, count: usize) -> (out: Vec<i64>)
        requires
            old(self).wf(),
            old(self).state_spec() is Active,
        ensures
            final(self).wf(),
            final(self).state_spec() is Active,
            final(self).input_spec() == old(self).input_spec(),
            final(self).output_spec() == old(self).output_spec(),
            final(self).display_spec() == old(self).display_spec(),
            final(self).display_capacity_spec() == old(self).display_capacity_spec(),
            final(self).buffer_length_spec() == old(self).buffer_length_spec(),
            out@.len() == count,
            count <= old(self).passthrough_spec().len() ==> out@ == old(
                self,
            ).passthrough_spec().take(count as int) && final(self).passthrough_spec() == old(
                self,
            ).passthrough_spec().skip(count as int),
            count > old(self).passthrough_spec().len() ==> out@ == old(self).passthrough_spec()
                + Seq::new((count - old(self).passthrough_spec().len()) as nat, |j: int| 0i64)
                && final(self).passthrough_spec() == Seq::<i64>::empty(),
    {
        let ghost queue_before = self.passthrough@;
        let mut out: Vec<i64> = Vec::new();
        let mut i: usize = 0;
        while i < count
            invariant
                i <= count,
                out@.len() == i,
                self.wf(),
                self.state == old(self).state,
                self.input == old(self).input,
                self.output == old(self).output,
                self.display == old(self).display,
                self.buffer_length_spec() == old(self).buffer_length_spec(),
                queue_before == old(self).passthrough_spec(),
                i <= queue_before.len() ==> out@ == queue_before.take(i as int)
                    && self.passthrough@ == queue_before.skip(i as int),
                i > queue_before.len() ==> out@ == queue_before + Seq::new(
                    (i - queue_before.len()) as nat,
                    |j: int| 0i64,
                ) && self.passthrough@.len() == 0,
            decreases count - i,
        {
            let x = self.passthrough.pop_or_silence();
            proof {
                if i < queue_before.len() {
                    assert(queue_before.take(i as int).push(queue_before[i as int])
                        =~= queue_before.take(i + 1));
                    assert(queue_before.skip(i as int).skip(1) =~= queue_before.skip(i + 1));
                    assert(queue_before.skip(i as int)[0] == queue_before[i as int]);
                } else if i == queue_before.len() {
                    assert(queue_before.take(i as int) =~= queue_before);
                    assert((queue_before + Seq::new((i + 1 - queue_before.len()) as nat, |j: int| 0i64))
                        =~= out@.push(0i64).push(x).drop_last());
                }
            }
            out.push(x);
            i = i + 1;
            proof {
                if i > queue_before.len() {
                    assert(out@ =~= queue_before + Seq::new(
                        (i - queue_before.len()) as nat,
                        |j: int| 0i64,
                    ));
                }
            }
        }
        proof {
            if count <= queue_before.len() {
            } else {
                assert(self.passthrough@ =~= Seq::<i64>::empty());
            }
        }
        out
    }

    /// A stop was observed: the session winds down.
    pub fn request_stop(&mut self)
        requires
            old(self).wf(),
            old(self).state_spec() is Active,
        ensures
            final(self).wf(),
            final(self).state_spec() is Stopping,
            crate::config::step_allowed(old(self).state_spec(), final(self).state_spec()),
            final(self).input_spec() == old(self).input_spec(),
            final(self).output_spec() == old(self).output_spec(),
            final(self).display_spec() == old(self).display_spec(),
            final(self).passthrough_spec() == old(self).passthrough_spec(),
    {
        self.state = SessionState::Stopping;
    }

    /// Both streams are paused: nothing to finalize, the session ends.
    pub fn finish(&mut self)
        requires
            old(self).wf(),
            old(self).state_spec() is Stopping,
        ensures
            final(self).wf(),
            final(self).state_spec() is Stopped,
            crate::config::step_allowed(old(self).state_spec(), final(self).state_spec()),
            final(self).input_spec() == old(self).input_spec(),
            final(self).output_spec() == old(self).output_spec(),
    {
        self.state = SessionState::Stopped;
    }

    /// Copies out the most recent samples for a display refresh.
    pub fn display_snapshot(&self) -> (out: Vec<i64>)
        ensures
            out@ == self.display_spec(),
    {
        self.display.snapshot()
    }
}

} // verus!
