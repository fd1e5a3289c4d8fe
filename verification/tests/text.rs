use screwdriver::text::{
    clip_file_name, format_time, half_units_string, hundredths_string, position_text, push_padded,
    top_bar_left,
};

#[test]
fn times_are_minutes_and_seconds() {
    assert_eq!(format_time(0), "00:00");
    assert_eq!(format_time(75), "01:15");
    assert_eq!(format_time(3599), "59:59");
    assert_eq!(format_time(6000), "100:00");
    assert_eq!(format_time(u32::MAX), format!("{:02}:{:02}", u32::MAX / 60, u32::MAX % 60));
}

#[test]
fn clip_names_are_numbered_with_three_digits() {
    assert_eq!(clip_file_name(1), "clip_001.wav");
    assert_eq!(clip_file_name(42), "clip_042.wav");
    assert_eq!(clip_file_name(1234), "clip_1234.wav");
}

#[test]
fn padding_only_widens() {
    let mut s = String::from("x");
    push_padded(&mut s, 7, 4);
    assert_eq!(s, "x0007");
    let mut t = String::new();
    push_padded(&mut t, 123456, 2);
    assert_eq!(t, "123456");
    let mut u = String::new();
    push_padded(&mut u, u64::MAX, 0);
    assert_eq!(u, u64::MAX.to_string());
}

#[test]
fn pitch_text_has_sign_and_one_decimal() {
    assert_eq!(half_units_string(0), "+0.0");
    assert_eq!(half_units_string(3), "+1.5");
    assert_eq!(half_units_string(-6), "-3.0");
    assert_eq!(half_units_string(-48), "-24.0");
    assert_eq!(half_units_string(i32::MIN), format!("{:+.1}", i32::MIN as f64 / 2.0));
}

#[test]
fn tempo_text_has_two_decimals() {
    assert_eq!(hundredths_string(100), "1.00");
    assert_eq!(hundredths_string(80), "0.80");
    assert_eq!(hundredths_string(5), "0.05");
    assert_eq!(hundredths_string(400), "4.00");
}

#[test]
fn top_bar_names_the_file_and_its_place() {
    assert_eq!(top_bar_left("voice.wav", 0, 3, false, None), " voice.wav (1/3)");
    assert_eq!(
        top_bar_left("b.mp3", 9, 12, true, Some("saved \u{2192} clip_001.wav")),
        " b.mp3 (10/12)  [!] sample rate mismatch  saved \u{2192} clip_001.wav"
    );
    assert_eq!(top_bar_left("\u{2014}", 0, 0, false, Some("x")), " \u{2014} (1/0)  x");
}

#[test]
fn position_line_shows_both_times() {
    assert_eq!(position_text(75, 3600), "01:15 / 60:00");
    assert_eq!(position_text(0, 0), "00:00 / 00:00");
}
