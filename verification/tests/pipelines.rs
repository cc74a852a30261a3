use asak::capture::CaptureSession;
use asak::codec::normalize;
use asak::config::{AudioError, SampleFormat, StreamConfig, NORM_ONE};
use asak::meter::meter;
use asak::monitor::MonitorSession;
use asak::playback::{adapt_channels, PlaybackSession};

fn config(rate: u32, channels: u16, format: SampleFormat) -> StreamConfig {
    StreamConfig { channels, sample_rate: rate, format }
}

#[test]
fn monitor_refuses_unequal_rates_first() {
    let input = config(48_000, 2, SampleFormat::Float32);
    let output = config(44_100, 2, SampleFormat::Float32);
    assert_eq!(
        MonitorSession::new(input, output, 1024).err(),
        Some(AudioError::RateMismatch)
    );
    // The check precedes the format check.
    let input = config(48_000, 2, SampleFormat::Int8);
    let output = config(44_100, 2, SampleFormat::Int8);
    assert_eq!(
        MonitorSession::new(input, output, 1024).err(),
        Some(AudioError::RateMismatch)
    );
}

#[test]
fn monitor_refuses_unsupported_formats() {
    let input = config(48_000, 2, SampleFormat::Int8);
    let output = config(48_000, 2, SampleFormat::Int8);
    assert_eq!(
        MonitorSession::new(input, output, 1024).err(),
        Some(AudioError::UnsupportedFormat)
    );
}

#[test]
fn monitor_passthrough_keeps_order_and_substitutes_silence() {
    let input = config(48_000, 2, SampleFormat::Int16);
    let output = config(48_000, 2, SampleFormat::Int16);
    let mut session = MonitorSession::new(input, output, 4).unwrap();
    let duplex = session.stream_config();
    assert_eq!(duplex.channels, 2);
    assert_eq!(duplex.sample_rate, 48_000);
    session.start();
    let block = vec![100, -100, 200, -200, 300, -300];
    let dropped = session.on_input_block(&block);
    // Six samples into four free slots: two drop.
    assert_eq!(dropped, 2);
    let out = session.fill_output_block(6);
    // The four oldest come out in order; the rest is silence.
    assert_eq!(out, vec![100, -100, 200, -200, 0, 0]);
    // The display saw the normalized samples, most recent four.
    let shown = session.display_snapshot();
    let expected: Vec<i64> = [200, -200, 300, -300]
        .iter()
        .map(|&x| normalize(x, SampleFormat::Int16))
        .collect();
    assert_eq!(shown, expected);
    session.request_stop();
    session.finish();
}

#[test]
fn capture_refuses_24_bit_input() {
    let cfg = config(48_000, 1, SampleFormat::Int24);
    assert_eq!(
        CaptureSession::new(cfg, 1024).err(),
        Some(AudioError::UnsupportedFormat)
    );
}

#[test]
fn capture_writer_loses_nothing() {
    let cfg = config(48_000, 1, SampleFormat::Int16);
    let mut session = CaptureSession::new(cfg, 8).unwrap();
    session.start();
    let mut written: Vec<i64> = Vec::new();
    session.on_input_block(&vec![1, 2, 3, 4, 5, 6, 7, 8, 9, 10, 11, 12]);
    written.extend(session.take_pending());
    session.on_input_block(&vec![13, 14, 15]);
    session.request_stop();
    written.extend(session.finish());
    // Every sample reached the writer, normalized, in order — even though
    // the 8-slot display ring kept only the most recent eight.
    let expected: Vec<i64> = (1..=15).map(|x| normalize(x, SampleFormat::Int16)).collect();
    assert_eq!(written, expected);
    let shown = session.display_snapshot();
    let expected_shown: Vec<i64> =
        (8..=15).map(|x| normalize(x, SampleFormat::Int16)).collect();
    assert_eq!(shown, expected_shown);
}

#[test]
fn capture_one_second_of_sine() {
    // One second of a 440 Hz sine at 48 kHz mono, amplitude 0.5: the
    // writer receives the whole second and its RMS is amplitude / sqrt(2)
    // within five percent.
    let rate = 48_000;
    let amplitude = 0.5f64;
    let cfg = config(rate as u32, 1, SampleFormat::Float32);
    let mut session = CaptureSession::new(cfg, 1024).unwrap();
    session.start();
    let mut written: Vec<i64> = Vec::new();
    let mut produced = 0usize;
    while produced < rate {
        let block_len = 480.min(rate - produced);
        let block: Vec<i64> = (produced..produced + block_len)
            .map(|n| {
                let t = n as f64 / rate as f64;
                let v = amplitude * (2.0 * std::f64::consts::PI * 440.0 * t).sin();
                (v * NORM_ONE as f64).round() as i64
            })
            .collect();
        session.on_input_block(&block);
        written.extend(session.take_pending());
        produced += block_len;
    }
    session.request_stop();
    written.extend(session.finish());
    assert!(written.len() >= 47_900 && written.len() <= 48_100);
    let level = meter(&written);
    let rms = level.rms as f64 / NORM_ONE as f64;
    let expected = amplitude * std::f64::consts::FRAC_1_SQRT_2;
    assert!((rms - expected).abs() <= 0.05 * expected, "rms {}", rms);
}

#[test]
fn playback_duplicates_mono_onto_both_channels() {
    // A two-second mono file played through a two-channel device at the
    // file's own rate: every served frame carries the same sample on both
    // channels.
    let rate = 1_000u32;
    let channel: Vec<i64> = (0..2_000).map(|i| (i * 1_000) as i64).collect();
    let mut session = PlaybackSession::prepare(vec![channel.clone()], rate, rate, 2).unwrap();
    let frames = session.fill_frames(2_000);
    assert_eq!(frames.len(), 2_000);
    for (i, frame) in frames.iter().enumerate() {
        assert_eq!(frame.len(), 2);
        assert_eq!(frame[0], frame[1]);
        assert_eq!(frame[0], channel[i]);
    }
}

#[test]
fn playback_cursor_wraps_on_exhaustion() {
    let channel = vec![10, 20, 30];
    let mut session = PlaybackSession::prepare(vec![channel], 8_000, 8_000, 1).unwrap();
    let mut served = Vec::new();
    for _ in 0..7 {
        served.push(session.next_frame()[0]);
    }
    assert_eq!(served, vec![10, 20, 30, 10, 20, 30, 10]);
}

#[test]
fn playback_resamples_to_the_device_rate() {
    let channel = vec![0; 10];
    let session = PlaybackSession::prepare(vec![channel], 44_100, 48_000, 1).unwrap();
    let mut session = session;
    let frames = session.fill_frames(11);
    assert_eq!(frames.len(), 11);
    assert!(frames.iter().all(|f| f[0] == 0));
}

#[test]
fn channel_adaptation_refuses_other_layouts() {
    let three = vec![vec![0i64; 4], vec![0i64; 4], vec![0i64; 4]];
    assert_eq!(
        adapt_channels(three, 2).err(),
        Some(AudioError::ChannelMismatch)
    );
    let one = vec![vec![0i64; 4]];
    assert_eq!(adapt_channels(one, 4).err(), Some(AudioError::ChannelMismatch));
}

#[test]
fn matching_layout_passes_through() {
    let stereo = vec![vec![1i64, 2], vec![3i64, 4]];
    let out = adapt_channels(stereo.clone(), 2).unwrap();
    assert_eq!(out, stereo);
}
