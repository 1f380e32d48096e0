use maono::text::{parse_i32, parse_id, parse_u16};

#[test]
fn parse_id_reads_hex_and_decimal() {
    assert_eq!(parse_id("0x208e"), Some(0x208E));
    assert_eq!(parse_id("0X208E"), Some(0x208E));
    assert_eq!(parse_id("8334"), Some(8334));
    assert_eq!(parse_id("  0x0042\t"), Some(0x42));
    assert_eq!(parse_id("\u{3000}12\u{a0}"), Some(12));
}

#[test]
fn parse_id_rejects_bad_input() {
    assert_eq!(parse_id(""), None);
    assert_eq!(parse_id("   "), None);
    assert_eq!(parse_id("0x"), None);
    assert_eq!(parse_id("0x1g"), None);
    assert_eq!(parse_id("65536"), None);
    assert_eq!(parse_id("0x10000"), None);
    assert_eq!(parse_id("-1"), None);
    assert_eq!(parse_id("1 2"), None);
}

#[test]
fn parse_id_matches_std() {
    let cases = [
        "0", "+7", "+", "-", "0x+1f", "0x-1", "00012", "65535", "0xffff", "0xFFFF", "x10", "٣",
        "1_000", " 42 ", "0x 1",
    ];
    for c in cases {
        let t = c.trim();
        let want = if let Some(h) = t.strip_prefix("0x").or_else(|| t.strip_prefix("0X")) {
            u16::from_str_radix(h, 16).ok()
        } else {
            t.parse().ok()
        };
        assert_eq!(parse_id(c), want, "{c:?}");
    }
}

#[test]
fn parse_u16_matches_std() {
    for c in ["", "0", "+5", "-5", "+", "65535", "65536", "99999999999", " 1", "12a", "007"] {
        assert_eq!(parse_u16(c), c.parse::<u16>().ok(), "{c:?}");
    }
}

#[test]
fn parse_i32_matches_std() {
    for c in [
        "", "-", "+", "0", "-0", "+12", "-12", "2147483647", "2147483648", "-2147483648",
        "-2147483649", "1-", "--1", "3.5",
    ] {
        assert_eq!(parse_i32(c), c.parse::<i32>().ok(), "{c:?}");
    }
}

#[test]
fn ids_read_back_as_written() {
    for n in 0..=u16::MAX {
        assert_eq!(parse_id(&n.to_string()), Some(n));
        assert_eq!(parse_id(&format!("0x{n:x}")), Some(n));
        assert_eq!(parse_id(&format!("0X{n:X}")), Some(n));
        assert_eq!(parse_id(&format!("0x{n:04x}")), Some(n));
        assert_eq!(parse_id(&format!("{n:05}")), Some(n));
    }
}
