//! Capture pipeline: an input stream's callback normalizes each incoming
//! native sample and forwards it to two consumers — a display ring that
//! may drop, and a writer hand-off queue that never does.
//!
//! The hand-off queue is authoritative for file content: everything the
//! callback accepted is either already delivered to the writer or still
//! pending, and finishing the session drains the remainder, so the writer
//! loses nothing even though the display may. The audio callback side does
//! no disk I/O; a separate writer task drains the pending samples and may
//! block on the file.

use vstd::prelude::*;

verus! {

use crate::codec::{normalize_block, normalized_seq};
use crate::config::{AudioError, SampleFormat, SessionState, StreamConfig};
use crate::frames::copy_samples;
use crate::ring::{ring_push_all, OverwriteRing};

/// The native formats the capture pipeline accepts from a device. A 24-bit
/// input stream is not offered by the host layer, so it fails fast at
/// start.
pub open spec fn capture_supported(format: SampleFormat) -> bool {
    !(format is Int24)
}

/// A running capture: the negotiated input configuration, the display
/// ring, the writer hand-off, and the session state. The ghost histories
/// account for every sample the callback accepted and every sample handed
/// to the writer.
pub struct CaptureSession {
    config: StreamConfig,
    display: OverwriteRing,
    pending: Vec<i64>,
    state: SessionState,
    captured: Ghost<Seq<i64>>,
    delivered: Ghost<Seq<i64>>,
}

impl CaptureSession {
    /// The negotiated input configuration.
    pub closed spec fn config_spec(self) -> StreamConfig {
        self.config
    }

    /// Where the session stands in its life.
    pub closed spec fn state_spec(self) -> SessionState {
        self.state
    }

    /// What the display ring holds.
    pub closed spec fn display_spec(self) -> Seq<i64> {
        self.display@
    }

    /// The display ring's fixed capacity.
    pub closed spec fn display_capacity_spec(self) -> nat {
        self.display.capacity_spec()
    }

    /// Normalized samples accepted but not yet handed to the writer.
    pub closed spec fn pending_spec(self) -> Seq<i64> {
        self.pending@
    }

    /// Every normalized sample the callback ever accepted, in order.
    pub closed spec fn captured_spec(self) -> Seq<i64> {
        self.captured@
    }

    /// Every normalized sample handed to the writer, in order.
    pub closed spec fn delivered_spec(self) -> Seq<i64> {
        self.delivered@
    }

    /// The accounting that makes the writer authoritative: everything
    /// captured is delivered or still pending, in order and in full.
    pub closed spec fn wf(self) -> bool {
        &&& self.config.wf()
        &&& capture_supported(self.config.format)
        &&& self.display.wf()
        &&& self.captured@ == self.delivered@ + self.pending@
    }

    /// Law: a well-formed session never loses a sample on the writer path;
    /// what was captured is exactly what was delivered followed by what is
    /// still pending.
    pub proof fn lemma_writer_accounting(self)
        requires
            self.wf(),
        ensures
            self.captured_spec() == self.delivered_spec() + self.pending_spec(),
    {
    }

    /// Opens a capture session: fails fast on a native format the pipeline
    /// does not handle, before any file or stream exists. On success the
    /// session is in its starting state with nothing buffered.
    pub fn new(config: StreamConfig, display_capacity: usize) -> (r: Result<
        CaptureSession,
        AudioError,
    >)
        requires
            config.wf(),
            display_capacity >= 1,
        ensures
            r is Ok <==> capture_supported(config.format),
            r matches Err(e) ==> e == AudioError::UnsupportedFormat,
            r matches Ok(s) ==> {
                &&& s.wf()
                &&& s.config_spec() == config
                &&& s.state_spec() is Starting
                &&& s.display_spec() == Seq::<i64>::empty()
                &&& s.display_capacity_spec() == display_capacity
                &&& s.pending_spec() == Seq::<i64>::empty()
                &&& s.captured_spec() == Seq::<i64>::empty()
                &&& s.delivered_spec() == Seq::<i64>::empty()
            },
    {
        if matches!(config.format, SampleFormat::Int24) {
            return Err(AudioError::UnsupportedFormat);
        }
        let session = CaptureSession {
            config,
            display: OverwriteRing::new(display_capacity),
            pending: Vec::new(),
            state: SessionState::Starting,
            captured: Ghost(Seq::empty()),
            delivered: Ghost(Seq::empty()),
        };
        proof {
            assert(session.captured@ =~= session.delivered@ + session.pending@);
        }
        Ok(session)
    }

    /// The stream is running: the session starts streaming.
    pub fn start(&mut self)
        requires
            old(self).wf(),
            old(self).state_spec() is Starting,
        ensures
            final(self).wf(),
            final(self).state_spec() is Active,
            crate::config::step_allowed(old(self).state_spec(), final(self).state_spec()),
            final(self).config_spec() == old(self).config_spec(),
            final(self).display_spec() == old(self).display_spec(),
            final(self).display_capacity_spec() == old(self).display_capacity_spec(),
            final(self).pending_spec() == old(self).pending_spec(),
            final(self).captured_spec() == old(self).captured_spec(),
            final(self).delivered_spec() == old(self).delivered_spec(),
    {
        self.state = SessionState::Active;
    }

    /// One input callback: normalizes the incoming native block, shows it
    /// on the display ring (which may evict), and appends all of it to the
    /// writer hand-off (which never drops). No I/O, no waiting.
    pub fn on_input_block(&mut self, native: &Vec<i64>)
        requires
            old(self).wf(),
            old(self).state_spec() is Active,
            forall|i: int|
                0 <= i < native@.len() ==> old(self).config_spec().format.representable(
                    #[trigger] native@[i] as int,
                ),
        ensures
            final(self).wf(),
            final(self).state_spec() is Active,
            final(self).config_spec() == old(self).config_spec(),
            final(self).display_capacity_spec() == old(self).display_capacity_spec(),
            final(self).display_spec() == ring_push_all(
                old(self).display_spec(),
                old(self).display_capacity_spec(),
                normalized_seq(native@, old(self).config_spec().format),
            ),
            final(self).pending_spec() == old(self).pending_spec() + normalized_seq(
                native@,
                old(self).config_spec().format,
            ),
            final(self).captured_spec() == old(self).captured_spec() + normalized_seq(
                native@,
                old(self).config_spec().format,
            ),
            final(self).delivered_spec() == old(self).delivered_spec(),
    {
        let normalized = normalize_block(native, self.config.format);
        let mut i: usize = 0;
        let ghost pending_before = self.pending@;
        while i < normalized.len()
            invariant
                i <= normalized@.len(),
                self.pending@ == pending_before + normalized@.take(i as int),
                self.config == old(self).config,
                self.state == old(self).state,
                self.display == old(self).display,
                self.captured == old(self).captured,
                self.delivered == old(self).delivered,
            decreases normalized@.len() - i,
        {
            proof {
                assert(normalized@.take(i as int).push(normalized@[i as int]) =~= normalized@.take(
                    i + 1,
                ));
            }
            self.pending.push(normalized[i]);
            i = i + 1;
        }
        self.display.push_all(&normalized);
        proof {
            assert(normalized@.take(normalized@.len() as int) =~= normalized@);
            self.captured = Ghost(self.captured@ + normalized@);
            assert(self.captured@ =~= self.delivered@ + self.pending@);
        }
    }

    /// The writer task drains everything pending, in order; the samples it
    /// receives count as delivered.
    pub fn take_pending(&mut self) -> (batch: Vec<i64>)
        requires
            old(self).wf(),
        ensures
            final(self).wf(),
            batch@ == old(self).pending_spec(),
            final(self).pending_spec() == Seq::<i64>::empty(),
            final(self).delivered_spec() == old(self).delivered_spec() + batch@,
            final(self).captured_spec() == old(self).captured_spec(),
            final(self).state_spec() == old(self).state_spec(),
            final(self).config_spec() == old(self).config_spec(),
            final(self).display_spec() == old(self).display_spec(),
            final(self).display_capacity_spec() == old(self).display_capacity_spec(),
    {
        let batch = copy_samples(&self.pending);
        self.pending.clear();
        proof {
            self.delivered = Ghost(self.delivered@ + batch@);
            assert(self.captured@ =~= self.delivered@ + self.pending@);
        }
        batch
    }

    /// A stop was observed: the session drains from here on.
    pub fn request_stop(&mut self)
        requires
            old(self).wf(),
            old(self).state_spec() is Active,
        ensures
            final(self).wf(),
            final(self).state_spec() is Stopping,
            crate::config::step_allowed(old(self).state_spec(), final(self).state_spec()),
            final(self).config_spec() == old(self).config_spec(),
            final(self).display_spec() == old(self).display_spec(),
            final(self).display_capacity_spec() == old(self).display_capacity_spec(),
            final(self).pending_spec() == old(self).pending_spec(),
            final(self).captured_spec() == old(self).captured_spec(),
            final(self).delivered_spec() == old(self).delivered_spec(),
    {
        self.state = SessionState::Stopping;
    }

    /// Ends the session: hands the writer whatever is still pending and
    /// stops. After this, everything ever captured has been delivered —
    /// the file may be finalized without losing a sample.
    pub fn finish(&mut self) -> (batch: Vec<i64>)
        requires
            old(self).wf(),
            old(self).state_spec() is Stopping,
        ensures
            final(self).wf(),
            final(self).state_spec() is Stopped,
            crate::config::step_allowed(old(self).state_spec(), final(self).state_spec()),
            batch@ == old(self).pending_spec(),
            final(self).pending_spec() == Seq::<i64>::empty(),
            final(self).delivered_spec() == final(self).captured_spec(),
            final(self).captured_spec() == old(self).captured_spec(),
            final(self).config_spec() == old(self).config_spec(),
    {
        let batch = self.take_pending();
        self.state = SessionState::Stopped;
        proof {
            assert(self.delivered@ =~= self.captured@);
        }
        batch
    }

    /// Copies out the most recent samples for a display refresh.
    pub fn display_snapshot(&self) -> (out: Vec<i64>)
        ensures
            out@ == self.display_spec(),
    {
        self.display.snapshot()
    }
}

} // verus!
