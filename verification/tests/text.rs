use topdown_racer::text::{
    decimal_string, format_best_target, format_opt_lap_time, format_time, hex16, ordinal, padded2,
};

/// Seconds as shown: clamped at zero and rounded to hundredths.
fn hundredths(seconds: f32) -> u32 {
    (seconds.max(0.0) * 100.0).round() as u32
}

#[test]
fn ordinal_suffixes_the_top_three_then_th() {
    assert_eq!(ordinal(1), "1st");
    assert_eq!(ordinal(2), "2nd");
    assert_eq!(ordinal(3), "3rd");
    assert_eq!(ordinal(4), "4th");
    assert_eq!(ordinal(12), "12th");
}

#[test]
fn format_time_renders_minutes_seconds_hundredths() {
    assert_eq!(format_time(hundredths(18.455)), "00:18.46");
    assert_eq!(format_time(hundredths(0.0)), "00:00.00");
    assert_eq!(format_time(hundredths(61.234)), "01:01.23");
    assert_eq!(format_time(hundredths(-1.0)), "00:00.00");
}

#[test]
fn format_opt_lap_time_uses_placeholder_when_absent() {
    assert_eq!(format_opt_lap_time(None), "--:--.--");
    assert_eq!(
        format_opt_lap_time(Some(hundredths(18.455))),
        format_time(hundredths(18.455))
    );
}

#[test]
fn ordinal_of_larger_positions_and_zero() {
    assert_eq!(ordinal(0), "0th");
    assert_eq!(ordinal(11), "11th");
    assert_eq!(ordinal(21), "21th");
    assert_eq!(ordinal(100), "100th");
}

#[test]
fn format_time_pads_each_field_and_keeps_long_minutes() {
    assert_eq!(format_time(5), "00:00.05");
    assert_eq!(format_time(6000), "01:00.00");
    assert_eq!(format_time(599_999), "99:59.99");
    assert_eq!(format_time(600_000), "100:00.00");
    assert_eq!(format_time(u32::MAX), "715827:52.95");
}

#[test]
fn best_target_names_the_saved_lap_or_its_absence() {
    assert_eq!(format_best_target(None), "TARGET TO BEAT — no best lap yet");
    assert_eq!(
        format_best_target(Some(2850)),
        "TARGET TO BEAT — BEST 00:28.50"
    );
}

#[test]
fn decimal_and_padded_text() {
    assert_eq!(decimal_string(0), "0");
    assert_eq!(decimal_string(7), "7");
    assert_eq!(decimal_string(1234567890), "1234567890");
    assert_eq!(decimal_string(u64::MAX), u64::MAX.to_string());
    assert_eq!(padded2(3), "03");
    assert_eq!(padded2(42), "42");
    assert_eq!(padded2(420), "420");
}

#[test]
fn hex16_is_zero_padded_lowercase() {
    assert_eq!(hex16(0), "0000000000000000");
    assert_eq!(hex16(0xcbf29ce484222325), "cbf29ce484222325");
    assert_eq!(hex16(0xABC), "0000000000000abc");
    assert_eq!(hex16(u64::MAX), format!("{:016x}", u64::MAX));
}
