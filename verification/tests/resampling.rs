use asak::config::NORM_ONE;
use asak::resample::resample;

#[test]
fn constant_signal_stays_constant_upsampling() {
    let c = NORM_ONE / 3;
    let src = vec![c; 10];
    let out = resample(&src, 44_100, 48_000);
    // ceil(10 * 48000 / 44100) = ceil(10.88..) = 11
    assert_eq!(out.len(), 11);
    assert!(out.iter().all(|&x| x == c));
}

#[test]
fn constant_signal_stays_constant_downsampling() {
    let c = -NORM_ONE / 7;
    let src = vec![c; 48];
    let out = resample(&src, 48_000, 8_000);
    // ceil(48 * 8000 / 48000) = 8
    assert_eq!(out.len(), 8);
    assert!(out.iter().all(|&x| x == c));
}

#[test]
fn equal_rates_return_the_input_unchanged() {
    let src = vec![5, -9, 0, NORM_ONE, -NORM_ONE, 123_456_789];
    let out = resample(&src, 48_000, 48_000);
    assert_eq!(out, src);
}

#[test]
fn output_length_is_duration_scaled_rounded_up() {
    let src = vec![0; 5];
    assert_eq!(resample(&src, 8_000, 16_000).len(), 10);
    let src = vec![0; 10];
    assert_eq!(resample(&src, 48_000, 24_000).len(), 5);
    let src = vec![0; 7];
    // ceil(7 * 3 / 2) = 11
    assert_eq!(resample(&src, 2, 3).len(), 11);
}

#[test]
fn linear_interpolation_brackets_exactly() {
    // Doubling the rate puts one interpolated sample between neighbours.
    let src = vec![0, 1_000_000];
    let out = resample(&src, 1, 2);
    // t = i/2: samples at source positions 0, 0.5, 1, 1.5; nothing is
    // extrapolated past the last source sample.
    assert_eq!(out, vec![0, 500_000, 1_000_000, 1_000_000]);
}

#[test]
fn interpolation_of_a_ramp_is_the_ramp() {
    let src: Vec<i64> = (0..10).map(|i| i * 1000).collect();
    let out = resample(&src, 1, 2);
    assert_eq!(out.len(), 20);
    for (i, &x) in out.iter().enumerate() {
        let expected = if i / 2 == 9 { 9000 } else { (i as i64) * 500 };
        assert_eq!(x, expected, "at {}", i);
    }
}

#[test]
fn single_sample_input() {
    let src = vec![42];
    let out = resample(&src, 44_100, 48_000);
    // ceil(1 * 48000 / 44100) = 2; both read the only sample.
    assert_eq!(out, vec![42, 42]);
}
