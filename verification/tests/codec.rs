use asak::codec::{
    denormalize, denormalize_block, normalize, normalize_block, sign_extend_24,
    sign_extend_24_block,
};
use asak::config::{SampleFormat, MAX_AMP, NORM_ONE};

const FORMATS: [SampleFormat; 5] = [
    SampleFormat::Int8,
    SampleFormat::Int16,
    SampleFormat::Int24,
    SampleFormat::Int32,
    SampleFormat::Float32,
];

fn native_range(format: SampleFormat) -> (i64, i64) {
    match format {
        SampleFormat::Int8 => (-0x80, 0x7f),
        SampleFormat::Int16 => (-0x8000, 0x7fff),
        SampleFormat::Int24 => (-0x80_0000, 0x7f_ffff),
        SampleFormat::Int32 => (-0x8000_0000, 0x7fff_ffff),
        SampleFormat::Float32 => (-MAX_AMP, MAX_AMP),
    }
}

#[test]
fn round_trip_every_format() {
    for format in FORMATS {
        let (lo, hi) = native_range(format);
        for x in [lo, lo + 1, -2, -1, 0, 1, 2, hi - 1, hi] {
            let q = normalize(x, format);
            assert_eq!(denormalize(q, format), x, "{:?} {}", format, x);
        }
    }
}

#[test]
fn normalize_is_exact_scaling() {
    assert_eq!(normalize(1, SampleFormat::Int8), 0x200_0000);
    assert_eq!(normalize(-0x80, SampleFormat::Int8), -NORM_ONE);
    assert_eq!(normalize(1, SampleFormat::Int16), 0x2_0000);
    assert_eq!(normalize(0x7fff, SampleFormat::Int16), 0x7fff * 0x2_0000);
    assert_eq!(normalize(1, SampleFormat::Int24), 0x200);
    assert_eq!(normalize(-0x80_0000, SampleFormat::Int24), -NORM_ONE);
    assert_eq!(normalize(3, SampleFormat::Int32), 6);
    assert_eq!(normalize(123_456, SampleFormat::Float32), 123_456);
}

#[test]
fn float32_is_identity_even_out_of_range() {
    for q in [-MAX_AMP, -NORM_ONE - 7, -1, 0, 1, NORM_ONE, NORM_ONE + 5, MAX_AMP] {
        assert_eq!(normalize(q, SampleFormat::Float32), q);
        assert_eq!(denormalize(q, SampleFormat::Float32), q);
    }
}

#[test]
fn denormalize_clamps_overshoot_to_full_scale() {
    assert_eq!(denormalize(NORM_ONE + 12345, SampleFormat::Int16), 0x7fff);
    assert_eq!(denormalize(MAX_AMP, SampleFormat::Int16), 0x7fff);
    assert_eq!(denormalize(-NORM_ONE - 12345, SampleFormat::Int16), -0x8000);
    assert_eq!(denormalize(-MAX_AMP, SampleFormat::Int8), -0x80);
    assert_eq!(denormalize(NORM_ONE, SampleFormat::Int32), 0x7fff_ffff);
}

#[test]
fn denormalize_rounds_to_nearest() {
    // One native step of Int16 is 0x2_0000 fixed-point steps.
    let k = 0x2_0000;
    assert_eq!(denormalize(10 * k + k / 2 - 1, SampleFormat::Int16), 10);
    assert_eq!(denormalize(10 * k + k / 2, SampleFormat::Int16), 11);
    assert_eq!(denormalize(-(10 * k + k / 2 - 1), SampleFormat::Int16), -10);
    assert_eq!(denormalize(-(10 * k + k / 2), SampleFormat::Int16), -11);
}

#[test]
fn sign_extension_of_24_bit_containers() {
    assert_eq!(sign_extend_24(0), 0);
    assert_eq!(sign_extend_24(1), 1);
    assert_eq!(sign_extend_24(0x7f_ffff), 8_388_607);
    assert_eq!(sign_extend_24(0x80_0000), -8_388_608);
    assert_eq!(sign_extend_24(0xff_ffff), -1);
}

#[test]
fn sign_extension_of_a_block() {
    let raw = vec![0, 0x7f_ffff, 0x80_0000, 0xff_ffff];
    let out = sign_extend_24_block(&raw);
    assert_eq!(out, vec![0, 8_388_607, -8_388_608, -1]);
}

#[test]
fn block_conversions_are_pointwise() {
    let native = vec![-0x8000, -1, 0, 1, 0x7fff];
    let normalized = normalize_block(&native, SampleFormat::Int16);
    assert_eq!(
        normalized,
        vec![-NORM_ONE, -0x2_0000, 0, 0x2_0000, 0x7fff * 0x2_0000]
    );
    let back = denormalize_block(&normalized, SampleFormat::Int16);
    assert_eq!(back, native);
}
