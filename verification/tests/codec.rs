use soundboard::sample::{decode, encode, Encoding, AMP_LIMIT, S16_STEP, SAMPLE_UNIT};

#[test]
fn s16_decode_scales_into_amplitude_units() {
    assert_eq!(decode(Encoding::S16, 0), 0);
    assert_eq!(decode(Encoding::S16, 100), 100 * S16_STEP);
    assert_eq!(decode(Encoding::S16, -32768), -SAMPLE_UNIT);
    assert_eq!(decode(Encoding::S16, 32767), SAMPLE_UNIT - S16_STEP);
}

#[test]
fn s16_encode_truncates_toward_zero() {
    assert_eq!(encode(Encoding::S16, 15), 1);
    assert_eq!(encode(Encoding::S16, -15), -1);
    assert_eq!(encode(Encoding::S16, 9), 0);
    assert_eq!(encode(Encoding::S16, -9), 0);
}

#[test]
fn s16_encode_saturates_out_of_range() {
    // A sample beyond full scale encodes to the boundary, never wraps.
    assert_eq!(encode(Encoding::S16, SAMPLE_UNIT + 1), 32767);
    assert_eq!(encode(Encoding::S16, 4 * SAMPLE_UNIT), 32767);
    assert_eq!(encode(Encoding::S16, AMP_LIMIT), 32767);
    assert_eq!(encode(Encoding::S16, -SAMPLE_UNIT - 1), -32768);
    assert_eq!(encode(Encoding::S16, -4 * SAMPLE_UNIT), -32768);
    assert_eq!(encode(Encoding::S16, -AMP_LIMIT), -32768);
}

#[test]
fn s16_round_trip_within_one_step() {
    for amp in [
        0i64,
        1,
        -1,
        12345,
        -12345,
        SAMPLE_UNIT,
        -SAMPLE_UNIT,
        SAMPLE_UNIT / 3,
        -SAMPLE_UNIT / 7,
    ] {
        let back = decode(Encoding::S16, encode(Encoding::S16, amp));
        assert!((back - amp).abs() <= S16_STEP, "amp {amp} came back as {back}");
    }
}

#[test]
fn f32_encoding_passes_through_unchanged() {
    for amp in [0i64, 5, -5, SAMPLE_UNIT, -SAMPLE_UNIT, AMP_LIMIT, -AMP_LIMIT] {
        assert_eq!(decode(Encoding::F32, amp), amp);
        assert_eq!(encode(Encoding::F32, amp), amp);
    }
    // No saturation on the float path, even beyond full scale.
    assert_eq!(encode(Encoding::F32, 3 * SAMPLE_UNIT), 3 * SAMPLE_UNIT);
}

#[test]
fn round_trip_tolerance_in_float_terms() {
    // The fixed-point round trip keeps a normalized float sample within one
    // 16-bit quantization step.
    for s in [0.3f32, -0.71, 0.999, -1.0, 0.0, 0.12345] {
        let amp = (s * SAMPLE_UNIT as f32) as i64;
        let back = decode(Encoding::S16, encode(Encoding::S16, amp));
        let s_back = back as f32 / SAMPLE_UNIT as f32;
        assert!((s_back - s).abs() <= 1.0f32 / 32768.0 + 1e-6);
    }
}
