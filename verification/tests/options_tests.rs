use rlviser::options::{parse_bool, parse_setting_line, parse_settings, parse_u16, parse_usize, port_or, setting_key, SettingKey};

#[test]
fn settings_lines_split_at_equals() {
    assert_eq!(parse_setting_line(b"vsync=true"), Some((b"vsync".to_vec(), b"true".to_vec())));
    assert_eq!(parse_setting_line(b"a=b=c"), Some((b"a".to_vec(), b"b".to_vec())));
    assert_eq!(parse_setting_line(b"key="), Some((b"key".to_vec(), Vec::new())));
    assert_eq!(parse_setting_line(b"no equals"), None);
    assert_eq!(parse_setting_line(b""), None);
}

#[test]
fn settings_file_parses_like_lines() {
    let text = b"vsync=false\r\nmsaa=4\n\nbroken\nshow_time=true";
    let settings = parse_settings(text);
    assert_eq!(
        settings,
        vec![
            (b"vsync".to_vec(), b"false".to_vec()),
            (b"msaa".to_vec(), b"4".to_vec()),
            (b"show_time".to_vec(), b"true".to_vec()),
        ]
    );
    assert!(parse_settings(b"").is_empty());
    assert_eq!(parse_settings(b"a=1\n"), vec![(b"a".to_vec(), b"1".to_vec())]);
    assert_eq!(parse_settings(b"a=1\r"), vec![(b"a".to_vec(), b"1\r".to_vec())]);
}

#[test]
fn setting_keys() {
    assert_eq!(setting_key(b"packet_smoothing"), Some(SettingKey::PacketSmoothing));
    assert_eq!(setting_key(b"calc_ball_rot"), Some(SettingKey::CalcBallRot));
    assert_eq!(setting_key(b"Vsync"), None);
    assert_eq!(setting_key(b"vsync "), None);
}

#[test]
fn flag_and_count_values() {
    assert_eq!(parse_bool(b"true"), Some(true));
    assert_eq!(parse_bool(b"false"), Some(false));
    assert_eq!(parse_bool(b"True"), None);
    assert_eq!(parse_usize(b"42"), Some(42));
    assert_eq!(parse_usize(b"+7"), Some(7));
    assert_eq!(parse_usize(b"+"), None);
    assert_eq!(parse_usize(b""), None);
    assert_eq!(parse_usize(b"-1"), None);
    assert_eq!(parse_usize(b" 1"), None);
    assert_eq!(parse_u16(b"65535"), Some(65535));
    assert_eq!(parse_u16(b"65536"), None);
    assert_eq!(parse_u16(b"0034254"), Some(34254));
    assert_eq!(parse_usize(b"18446744073709551616"), None);
}

#[test]
fn ports_default_when_missing_or_bad() {
    assert_eq!(port_or(None, 34254), 34254);
    assert_eq!(port_or(Some(b"12345"), 34254), 12345);
    assert_eq!(port_or(Some(b"port"), 45243), 45243);
    assert_eq!(port_or(Some(b"70000"), 45243), 45243);
}
