//! Core of a command-line audio utility that records an input device to a
//! WAV file, plays a WAV file through an output device, and live-monitors a
//! device pair with level metering.
//!
//! Device, file and terminal I/O live outside this crate; what stands here is
//! the real-time pipeline logic: sample-format normalization, bounded
//! buffering between the audio-callback thread and its consumers, linear
//! rate conversion, RMS/peak metering, and the session state machines of the
//! capture, playback and monitor pipelines.
//!
//! A normalized sample is a signed fixed-point amplitude: the value `q`
//! stands for `q / NORM_ONE`, so the nominal range -1.0..=1.0 is
//! `-NORM_ONE..=NORM_ONE`. Out-of-range values (resampler overshoot) are
//! representable and pass through the pipelines; only denormalization to an
//! integer format clamps, as the output would otherwise wrap.

pub mod capture;
pub mod cli;
pub mod codec;
pub mod config;
pub mod frames;
pub mod meter;
pub mod monitor;
pub mod playback;
pub mod queue;
pub mod resample;
pub mod ring;
