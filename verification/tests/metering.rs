use asak::config::NORM_ONE;
use asak::meter::{db_reading, isqrt, meter, meter_channels, waveform_rms_points, DbReading};

#[test]
fn silence_reads_zero_and_the_sentinel() {
    let window = vec![0; 256];
    let level = meter(&window);
    assert_eq!(level.rms, 0);
    assert_eq!(level.peak, 0);
    assert_eq!(db_reading(level.rms), DbReading::NegativeInfinity);
}

#[test]
fn empty_window_reads_as_silence() {
    let window: Vec<i64> = Vec::new();
    let level = meter(&window);
    assert_eq!(level.rms, 0);
    assert_eq!(level.peak, 0);
}

#[test]
fn nonzero_rms_reads_finite() {
    assert_eq!(db_reading(1), DbReading::Finite);
    assert_eq!(db_reading(u64::MAX), DbReading::Finite);
}

#[test]
fn small_window_exact_values() {
    let window = vec![3, -4];
    let level = meter(&window);
    assert_eq!(level.peak, 4);
    // mean square = (9 + 16) / 2 = 12; floor(sqrt 12) = 3
    assert_eq!(level.rms, 3);
}

#[test]
fn full_scale_square_wave() {
    let mut window = Vec::new();
    for i in 0..100 {
        window.push(if i % 2 == 0 { NORM_ONE } else { -NORM_ONE });
    }
    let level = meter(&window);
    assert_eq!(level.peak, NORM_ONE as u64);
    assert_eq!(level.rms, NORM_ONE as u64);
}

#[test]
fn isqrt_exact_values() {
    assert_eq!(isqrt(0), 0);
    assert_eq!(isqrt(1), 1);
    assert_eq!(isqrt(3), 1);
    assert_eq!(isqrt(4), 2);
    assert_eq!(isqrt(15), 3);
    assert_eq!(isqrt(16), 4);
    assert_eq!(isqrt(1 << 70), 1 << 35);
    assert_eq!(isqrt((1 << 72) - 1), (1 << 36) - 1);
}

#[test]
fn channels_are_metered_separately() {
    // Interleaved stereo: left silent, right full scale.
    let mut window = Vec::new();
    for _ in 0..64 {
        window.push(0);
        window.push(NORM_ONE);
    }
    let levels = meter_channels(&window, 2);
    assert_eq!(levels.len(), 2);
    assert_eq!(levels[0].rms, 0);
    assert_eq!(levels[0].peak, 0);
    assert_eq!(levels[1].rms, NORM_ONE as u64);
    assert_eq!(levels[1].peak, NORM_ONE as u64);
}

#[test]
fn waveform_points_reduce_recent_chunks() {
    // 256 samples: the first 128 at a constant amplitude, the last 128
    // silent; a width of 2 draws both chunks.
    let mut samples = vec![1 << 20; 128];
    samples.extend(std::iter::repeat(0).take(128));
    let points = waveform_rms_points(&samples, 2);
    assert_eq!(points, vec![1 << 20, 0]);
    // A width of 1 draws only the most recent 128 samples.
    let points = waveform_rms_points(&samples, 1);
    assert_eq!(points, vec![0]);
}

#[test]
fn waveform_points_with_partial_last_chunk() {
    let samples = vec![5000; 130];
    let points = waveform_rms_points(&samples, 4);
    // 130 samples make one full chunk and one chunk of 2.
    assert_eq!(points, vec![5000, 5000]);
}
