use rlviser::time_display::time_text;

#[test]
fn clock_text_examples() {
    assert_eq!(time_text(0, 120), "00m:00s");
    assert_eq!(time_text(120 * 65, 120), "01m:05s");
    assert_eq!(time_text(120 * 3661, 120), "01h:01m:01s");
    assert_eq!(time_text(120 * (86400 + 7200 + 3), 120), "1d:02h:00m:03s");
    assert_eq!(time_text(1, 0), "");
    assert_eq!(time_text(119, 120), "00m:00s");
}

#[test]
fn clock_text_long_spans() {
    let year = 365 * 86400u64;
    assert_eq!(time_text(year, 1), "1y:00m:00s");
    assert_eq!(time_text(30 * 86400 + 7 * 86400, 1), "01m:01w:00m:00s");
    assert_eq!(time_text(100 * 60 * 60 * 24 * 365 + 59, 1), "100y:00m:59s");
}
