use tts_rs::single::{above_four, not_positive, pcm16};
use tts_rs::text::{blank, decimal, parse_number, signed_decimal, text_precedes, trim, white_space};

fn quantized(sample: f32) -> i16 {
    (sample.clamp(-1.0, 1.0) * i16::MAX as f32) as i16
}

#[test]
fn samples_are_quantized_as_in_single_precision() {
    let mut bits: u32 = 0;
    loop {
        assert_eq!(pcm16(bits), quantized(f32::from_bits(bits)), "bits {bits:#x}");
        match bits.checked_add(9973) {
            Some(next) => bits = next,
            None => break,
        }
    }
}

#[test]
fn loud_samples_are_quantized_as_in_single_precision() {
    // Every seventh number between a quarter and one.
    let mut bits = 0.25f32.to_bits();
    while bits <= 1.0f32.to_bits() {
        assert_eq!(pcm16(bits), quantized(f32::from_bits(bits)), "bits {bits:#x}");
        bits += 7;
    }
}

#[test]
fn full_scale_is_reached_and_not_exceeded() {
    assert_eq!(pcm16(1.0f32.to_bits()), 32767);
    assert_eq!(pcm16((-1.0f32).to_bits()), -32767);
    assert_eq!(pcm16(f32::INFINITY.to_bits()), 32767);
    assert_eq!(pcm16(f32::NEG_INFINITY.to_bits()), -32767);
    assert_eq!(pcm16(3.0f32.to_bits()), 32767);
    assert_eq!(pcm16(f32::NAN.to_bits()), 0);
    assert_eq!(pcm16((-0.0f32).to_bits()), 0);
    assert_eq!(pcm16(0.5f32.to_bits()), 16383);
    assert_eq!(pcm16((-0.5f32).to_bits()), -16383);
}

#[test]
fn quantization_is_odd_and_keeps_order() {
    let mut last = 0;
    for i in 0..=1000 {
        let sample = i as f32 / 1000.0;
        let level = pcm16(sample.to_bits());
        assert!(level >= last);
        assert_eq!(pcm16((-sample).to_bits()), -level);
        last = level;
    }
}

#[test]
fn speeds_are_compared_as_numbers() {
    let values = [
        0.0f32,
        -0.0,
        f32::MIN_POSITIVE,
        1e-45,
        -1e-45,
        1.0,
        -1.0,
        3.9999998,
        4.0,
        4.0000005,
        4.001,
        f32::MAX,
        f32::INFINITY,
        f32::NEG_INFINITY,
        f32::NAN,
    ];
    for v in values {
        assert_eq!(not_positive(v.to_bits()), v <= 0.0, "{v}");
        assert_eq!(above_four(v.to_bits()), v > 4.0, "{v}");
    }
}

#[test]
fn white_space_is_that_of_unicode() {
    for c in '\0'..=char::MAX {
        assert_eq!(white_space(c), c.is_whitespace(), "{:#x}", c as u32);
    }
}

#[test]
fn texts_are_trimmed() {
    for text in ["", "  ", " a", "a ", "\t a b \u{3000}\n", "\u{200b}x", "é \u{a0}"] {
        assert_eq!(trim(text), text.trim());
        assert_eq!(blank(text), text.trim().is_empty());
    }
}

#[test]
fn numbers_are_written_and_read_back() {
    for n in [0u64, 7, 10, 99, 100, 1_234_567_890, u64::MAX] {
        assert_eq!(decimal(n), n.to_string());
        assert_eq!(parse_number(&decimal(n), u64::MAX), Some(n));
    }
    for n in [0i32, -1, 42, i32::MAX, i32::MIN] {
        assert_eq!(signed_decimal(n), n.to_string());
    }
}

#[test]
fn numbers_are_read_as_rust_reads_them() {
    let texts = [
        "", "+", "-", "-0", "+0", "0", "00", "65535", "65536", "+8080", "++1", "1+", " 1", "1 ", "0x10",
        "12a", "18446744073709551615", "18446744073709551616", "99999999999999999999999", "１",
    ];
    for text in texts {
        assert_eq!(parse_number(text, u64::MAX), text.parse::<u64>().ok(), "{text:?}");
        assert_eq!(
            parse_number(text, u16::MAX as u64),
            text.parse::<u16>().ok().map(|n| n as u64),
            "{text:?}"
        );
    }
}

#[test]
fn texts_are_ordered_by_their_characters() {
    let texts = ["", "a", "aa", "ab", "b", "B", "af_heart", "am_adam", "é", "z", "\u{10000}", "\u{ffff}"];
    for a in texts {
        for b in texts {
            assert_eq!(text_precedes(a, b), a < b, "{a:?} {b:?}");
        }
    }
}
