use frame_motion_studio::float_text::{f32_text, f64_text, rounded_half_even};
use frame_motion_studio::text::{
    decimal_string, fixed_point_string, signed_decimal_string, to_ascii_lower, trim_start_dots,
};
use frame_motion_studio::video::VideoInfo;

/// The properties as the reader's caller hands them over: the length divided in double
/// and in single precision.
fn probe(width: i32, height: i32, fps: f64, frames: i32) -> VideoInfo {
    let q = frames as f64 / fps;
    VideoInfo::from_probe(width, height, fps.to_bits(), frames, q.to_bits(), (q as f32).to_bits())
}

#[test]
fn decimal_numerals() {
    assert_eq!(decimal_string(0), "0");
    assert_eq!(decimal_string(7), "7");
    assert_eq!(decimal_string(1234), "1234");
    assert_eq!(decimal_string(u64::MAX), "18446744073709551615");
}

#[test]
fn signed_numerals() {
    assert_eq!(signed_decimal_string(-42), "-42");
    assert_eq!(signed_decimal_string(0), "0");
    assert_eq!(signed_decimal_string(300), "300");
    assert_eq!(signed_decimal_string(i64::MIN), "-9223372036854775808");
}

#[test]
fn fixed_point_numerals() {
    assert_eq!(fixed_point_string(1001, 2), "10.01");
    assert_eq!(fixed_point_string(5, 2), "0.05");
    assert_eq!(fixed_point_string(7, 1), "0.7");
    assert_eq!(fixed_point_string(100, 2), "1.00");
    assert_eq!(fixed_point_string(42, 0), "42");
}

#[test]
fn rounding_ties_to_even() {
    assert_eq!(rounded_half_even(125, 10), 12);
    assert_eq!(rounded_half_even(135, 10), 14);
    assert_eq!(rounded_half_even(126, 10), 13);
    assert_eq!(rounded_half_even(124, 10), 12);
    assert_eq!(rounded_half_even(u64::MAX, 1), u64::MAX);
    assert_eq!(rounded_half_even(u64::MAX, 2), 9223372036854775808);
}

#[test]
fn double_texts_match_rust_formatting() {
    let samples = [
        29.985, 29.97, 30.0, 1.005, 6.25, 0.125, 2.5, 3.5, -0.0, 0.0, 1e-300, 5e-324, 1e300,
        f64::MAX, f64::MIN_POSITIVE, 0.005, 0.015, 0.025, 123456.785, -2.675, 1e16, 9007199254740993.0,
        4503599627370496.5, 1e-6, 10.01001001, f64::NAN, f64::INFINITY, f64::NEG_INFINITY,
    ];
    for x in samples {
        assert_eq!(f64_text(x.to_bits(), 2), format!("{:.2}", x), "{:e}", x);
        assert_eq!(f64_text(x.to_bits(), 1), format!("{:.1}", x), "{:e}", x);
        assert_eq!(f64_text(x.to_bits(), 0), format!("{:.0}", x), "{:e}", x);
    }
    let mut state: u64 = 0x9e37_79b9_7f4a_7c15;
    for _ in 0..2000 {
        state = state.wrapping_mul(6364136223846793005).wrapping_add(1442695040888963407);
        let bits = state;
        let x = f64::from_bits(bits);
        assert_eq!(f64_text(bits, 2), format!("{:.2}", x), "{:#x}", bits);
        // values of moderate size, where ties and carries are frequent
        let y = (state >> 11) as f64 / 4096.0;
        assert_eq!(f64_text(y.to_bits(), 2), format!("{:.2}", y), "{}", y);
        let z = (state >> 40) as f64 / 1000.0;
        assert_eq!(f64_text(z.to_bits(), 2), format!("{:.2}", z), "{}", z);
    }
}

#[test]
fn single_texts_match_rust_formatting() {
    let samples = [
        6.25f32, 6.2501, 0.05, 0.15, 42.5, 100.0, 99.95, -0.0, 0.0, 1e-45, f32::MAX, 3.4e38, 1e10,
        f32::NAN, f32::INFINITY, f32::NEG_INFINITY, 16777217.0, 0.45,
    ];
    for x in samples {
        assert_eq!(f32_text(x.to_bits(), 1), format!("{:.1}", x), "{:e}", x);
        assert_eq!(f32_text(x.to_bits(), 2), format!("{:.2}", x), "{:e}", x);
    }
    for bits in (0u32..=u32::MAX).step_by(65521) {
        let x = f32::from_bits(bits);
        assert_eq!(f32_text(bits, 1), format!("{:.1}", x), "{:#x}", bits);
        assert_eq!(f32_text(bits, 2), format!("{:.2}", x), "{:#x}", bits);
    }
    for i in 0..3000u32 {
        let p = (i as f32 / 1600.0 * 100.0).clamp(0.0, 100.0);
        assert_eq!(f32_text(p.to_bits(), 1), format!("{:.1}", p), "{}", p);
    }
}

#[test]
fn lower_case_and_trimming() {
    assert_eq!(to_ascii_lower("MP4"), "mp4");
    assert_eq!(to_ascii_lower("WebM-Ä"), "webm-Ä");
    assert_eq!(trim_start_dots("..png"), "png");
    assert_eq!(trim_start_dots("png"), "png");
    assert_eq!(trim_start_dots("..."), "");
    assert_eq!(trim_start_dots("a.b"), "a.b");
}

#[test]
fn video_info_texts_when_known() {
    let info = probe(1920, 1080, 29.97, 300);
    assert_eq!(info.duration_bits, (300.0f64 / 29.97).to_bits());
    assert_eq!(info.resolution_str(), "1920 x 1080");
    assert_eq!(info.fps_str(), "29.97");
    assert_eq!(info.frame_count_str(), "300");
    assert_eq!(info.duration_str(), "10.01s");
    assert!(info.fps_is_valid());
}

#[test]
fn video_info_texts_round_as_the_float_does() {
    assert_eq!(probe(640, 480, 29.985, 1).fps_str(), "29.98");
    assert_eq!(probe(640, 480, 200.0, 201).duration_str(), "1.00s");
    assert_eq!(probe(640, 480, 30.0, 300).fps_str(), "30.00");
}

#[test]
fn video_info_texts_when_unknown() {
    let info = probe(0, 720, 0.0, 0);
    assert_eq!(info.duration_bits, 0);
    assert_eq!(info.resolution_str(), "--");
    assert_eq!(info.fps_str(), "--");
    assert_eq!(info.frame_count_str(), "--");
    assert_eq!(info.duration_str(), "--");
    assert!(!info.fps_is_valid());
    let nan = probe(640, 480, f64::NAN, 10);
    assert_eq!(nan.fps_str(), "--");
    assert!(!nan.fps_is_valid());
    assert_eq!(nan.duration_bits, 0);
}

#[test]
fn video_length_needs_rate_and_count() {
    assert_eq!(probe(640, 480, 30.0, 300).duration_bits, 10.0f64.to_bits());
    assert_eq!(probe(640, 480, 30.0, -5).duration_bits, 0);
    assert_eq!(probe(640, 480, 0.0, 300).duration_bits, 0);
    assert_eq!(probe(640, 480, 1e-6, 300).duration_bits, 0);
    assert!(!probe(640, 480, 1e-6, 300).fps_is_valid());
    let just_above = f64::from_bits(1e-6f64.to_bits() + 1);
    assert!(probe(640, 480, just_above, 300).fps_is_valid());
    assert_eq!(probe(640, 480, f64::INFINITY, 300).duration_bits, 0.0f64.to_bits());
    assert!(!probe(640, 480, f64::INFINITY, 300).fps_is_valid());
    assert_eq!(probe(640, 480, 25.0, 1).duration_str(), "0.04s");
    assert_eq!(probe(640, 480, 25.0, 1).duration_f32_bits, 0.04f32.to_bits());
}
