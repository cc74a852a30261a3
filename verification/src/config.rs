//! Stream configurations, sample formats, WAV parameters and session states.

use vstd::prelude::*;

verus! {

/// Fixed-point steps per unit of amplitude: a normalized sample `q` stands
/// for the amplitude `q / NORM_ONE`, so full scale 1.0 is `NORM_ONE`.
pub const NORM_ONE: i64 = 0x1_0000_0000;

/// Largest sample magnitude the pipelines accept: sixteen times full scale,
/// headroom for unclamped resampler overshoot.
pub const MAX_AMP: i64 = 0x10_0000_0000;

/// A device-native sample encoding. Signed integers of 8, 16, 24 and 32
/// bits, and 32-bit float. A 24-bit sample travels sign-extended in a 32-bit
/// container.
#[derive(Clone, Copy, PartialEq, Eq, Structural, Debug)]
pub enum SampleFormat {
    Int8,
    Int16,
    Int24,
    Int32,
    Float32,
}

impl SampleFormat {
    /// Maximum magnitude of the format: the amplitude that a native value
    /// is divided by when it is normalized. For `Float32` the native carrier
    /// is already a normalized fixed-point amplitude, so its magnitude is
    /// `NORM_ONE` and normalization is the identity.
    pub open spec fn magnitude(self) -> int {
        match self {
            SampleFormat::Int8 => 0x80,
            SampleFormat::Int16 => 0x8000,
            SampleFormat::Int24 => 0x80_0000,
            SampleFormat::Int32 => 0x8000_0000,
            SampleFormat::Float32 => 0x1_0000_0000,
        }
    }

    /// Fixed-point steps per native step: `NORM_ONE / magnitude`.
    pub open spec fn scale(self) -> int {
        match self {
            SampleFormat::Int8 => 0x200_0000,
            SampleFormat::Int16 => 0x2_0000,
            SampleFormat::Int24 => 0x200,
            SampleFormat::Int32 => 2,
            SampleFormat::Float32 => 1,
        }
    }

    /// Bits that one sample of this format occupies in a WAV container.
    pub open spec fn bits(self) -> int {
        match self {
            SampleFormat::Int8 => 8,
            SampleFormat::Int16 => 16,
            SampleFormat::Int24 => 24,
            SampleFormat::Int32 => 32,
            SampleFormat::Float32 => 32,
        }
    }

    /// Native values that one sample of this format can hold. For the
    /// integer formats this is the two's-complement range of the width;
    /// a `Float32` carrier holds any amplitude the pipelines accept.
    pub open spec fn representable(self, x: int) -> bool {
        match self {
            SampleFormat::Float32 => -MAX_AMP <= x <= MAX_AMP,
            _ => -self.magnitude() <= x < self.magnitude(),
        }
    }
}

/// The configuration negotiated with a device: immutable once negotiated.
#[derive(Clone, Copy, PartialEq, Eq, Structural, Debug)]
pub struct StreamConfig {
    pub channels: u16,
    pub sample_rate: u32,
    pub format: SampleFormat,
}

impl StreamConfig {
    /// A negotiated configuration has at least one channel and a positive
    /// sample rate.
    pub open spec fn wf(self) -> bool {
        self.channels > 0 && self.sample_rate > 0
    }
}

/// The parameters a WAV container is created with.
#[derive(Clone, Copy, PartialEq, Eq, Structural, Debug)]
pub struct WavSpec {
    pub channels: u16,
    pub sample_rate: u32,
    pub bits_per_sample: u16,
    pub float_format: bool,
}

/// Derives the WAV container parameters from a negotiated configuration:
/// channel count and rate carry over, the sample width follows the native
/// format, and the container encodes floats exactly when the device does.
pub fn wav_spec_from_config(config: &StreamConfig) -> (spec: WavSpec)
    ensures
        spec.channels == config.channels,
        spec.sample_rate == config.sample_rate,
        spec.bits_per_sample == config.format.bits(),
        spec.float_format <==> config.format is Float32,
{
    let bits: u16 = match config.format {
        SampleFormat::Int8 => 8,
        SampleFormat::Int16 => 16,
        SampleFormat::Int24 => 24,
        SampleFormat::Int32 => 32,
        SampleFormat::Float32 => 32,
    };
    WavSpec {
        channels: config.channels,
        sample_rate: config.sample_rate,
        bits_per_sample: bits,
        float_format: matches!(config.format, SampleFormat::Float32),
    }
}

/// The life of a pipeline run: negotiated but not yet streaming, streaming,
/// draining after a stop was observed, and fully stopped with files
/// finalized.
#[derive(Clone, Copy, PartialEq, Eq, Structural, Debug)]
pub enum SessionState {
    Starting,
    Active,
    Stopping,
    Stopped,
}

/// The only state changes a session may make: start streaming, observe a
/// stop, finish draining.
pub open spec fn step_allowed(from: SessionState, to: SessionState) -> bool {
    ||| (from is Starting && to is Active)
    ||| (from is Active && to is Stopping)
    ||| (from is Stopping && to is Stopped)
}

/// What a pipeline reports when it cannot run or ends early.
#[derive(Clone, Copy, PartialEq, Eq, Structural, Debug)]
pub enum AudioError {
    /// The device negotiated a native format the pipeline does not handle.
    UnsupportedFormat,
    /// Monitoring was asked of an input/output pair whose rates differ.
    RateMismatch,
    /// The file and device channel layouts cannot be reconciled.
    ChannelMismatch,
}

} // verus!
