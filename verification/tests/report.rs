use maono::report::{
    decimal, field_line, gain_change_line, gain_line, hex4, light_line, mute_line, scan_header,
    scan_line, written_line, State,
};

fn sample() -> State {
    State::from_fields(Some(87), Some(0), Some(12), Some(1), Some(1), Some(1), Some(3))
}

#[test]
fn decimal_and_hex_text() {
    assert_eq!(decimal(0), "0");
    assert_eq!(decimal(7), "7");
    assert_eq!(decimal(10), "10");
    assert_eq!(decimal(65535), "65535");
    assert_eq!(hex4(0x208e), "208e");
    assert_eq!(hex4(0x42), "0042");
    assert_eq!(hex4(0xFFFF), "ffff");
}

#[test]
fn readme_status_report() {
    assert_eq!(
        sample().report(),
        "  battery         : 87%\n  mute            : live\n  gain            : 12 / 20\n  noise reduction : on, mid\n"
    );
}

#[test]
fn status_report_with_missing_readings() {
    let st = State::from_fields(None, None, None, None, None, None, None);
    assert_eq!(
        st.report(),
        "  battery         : ?%\n  mute            : ?\n  gain            : ? / 20\n  noise reduction : ?\n"
    );
    let muted = State::from_fields(Some(5), Some(1), Some(0), Some(0), Some(2), None, None);
    assert!(muted.report().contains("  mute            : MUTED\n"));
    assert!(muted.report().contains("  noise reduction : off\n"));
}

#[test]
fn nr_text_cases() {
    let with = |on, lvl| State::from_fields(None, None, None, on, lvl, None, None).nr_text();
    assert_eq!(with(Some(1), Some(0)), "on, low");
    assert_eq!(with(Some(1), Some(1)), "on, mid");
    assert_eq!(with(Some(2), Some(2)), "on, high");
    assert_eq!(with(Some(1), Some(3)), "on");
    assert_eq!(with(Some(1), None), "on");
    assert_eq!(with(Some(0), Some(1)), "off");
    assert_eq!(with(None, Some(1)), "?");
}

#[test]
fn readme_json_line() {
    assert_eq!(
        sample().json(),
        "{\"text\":\"\u{f036c}\",\"class\":\"live\",\"tooltip\":\"Mic live · battery 87% · gain 12/20 · NR on, mid\",\"muted\":false,\"battery\":87,\"gain\":12,\"gain_max\":20,\"nr\":\"on, mid\",\"nr_on\":true,\"nr_level\":1,\"light_on\":true,\"light_mode\":3,\"light_mode_name\":\"lime\"}"
    );
}

#[test]
fn json_line_when_muted_and_unknown() {
    let st = State::from_fields(None, Some(1), None, None, None, None, None);
    assert_eq!(
        st.json(),
        "{\"text\":\"\u{f036d}\",\"class\":\"muted\",\"tooltip\":\"Mic muted · battery ?% · gain ?/20 · NR ?\",\"muted\":true,\"battery\":null,\"gain\":null,\"gain_max\":20,\"nr\":\"?\",\"nr_on\":false,\"nr_level\":null,\"light_on\":false,\"light_mode\":null,\"light_mode_name\":\"?\"}"
    );
}

#[test]
fn one_line_answers() {
    assert_eq!(mute_line(Some(1)), "  mute : MUTED");
    assert_eq!(mute_line(Some(0)), "  mute : live");
    assert_eq!(mute_line(None), "  mute : ?");
    assert_eq!(gain_line(12), "  gain : 12 / 20");
    assert_eq!(gain_change_line(12, 14), "  gain : 12 -> 14 / 20");
    assert_eq!(light_line(true, 3), "  light : on  mode 3 (lime)");
    assert_eq!(light_line(false, 12), "  light : off  mode 12 (?)");
    assert_eq!(field_line(0x208e, Some(5)), "  0x208e = 5  (0x0005)");
    assert_eq!(field_line(0x42, None), "  0x0042 = no answer");
    assert_eq!(written_line(0x207e, Some(12)), "  0x207e = Some(12)");
    assert_eq!(written_line(0x207e, None), "  0x207e = None");
    assert_eq!(scan_header(0x2000, 0x20ff), "scanning 0x2000..0x20ff (read-only)");
    assert_eq!(scan_line(0x2085, 2), "  0x2085 = 2");
    assert_eq!(sample().nr_line(), "  noise reduction : on, mid");
}

#[test]
fn json_line_has_no_line_break() {
    let cases = [
        sample(),
        State::from_fields(None, None, None, None, None, None, None),
        State::from_fields(Some(65535), Some(9), Some(65535), Some(3), Some(7), Some(0), Some(65535)),
        State::from_fields(Some(0), Some(1), Some(20), Some(1), Some(2), Some(1), Some(8)),
    ];
    for st in cases {
        assert!(!st.json().contains('\n'));
    }
}
