use rs1090::text::{format_hex, pad_right, parse_hex_u32, push_decimal, strip_leading, str_eq, trim, trim_to_string};

#[test]
fn hex_formatting_matches_format_macro() {
    for v in [0u32, 1, 0xabc, 0x3c6752, 0xffffff, 0x1000000, u32::MAX] {
        assert_eq!(format_hex(v, 6), format!("{:06x}", v));
        assert_eq!(format_hex(v, 4), format!("{:04x}", v));
        assert_eq!(format_hex(v, 0), format!("{:x}", v));
    }
}

#[test]
fn hex_parsing_matches_from_str_radix() {
    for s in ["", "+", "-1", "0", "ff", "FFFFFFFF", "100000000", "+abc", "a b", "é", "00000000000000001"] {
        assert_eq!(parse_hex_u32(s), u32::from_str_radix(s, 16).ok(), "{s:?}");
    }
}

#[test]
fn decimal_and_trim() {
    let mut s = String::from("A");
    push_decimal(&mut s, 7);
    assert_eq!(s, "A7");
    let mut s = String::new();
    push_decimal(&mut s, 255);
    assert_eq!(s, "255");
    for t in ["  AFR3360 ", "DLH1A", "   ", "", "\u{3000}x\u{a0}", "\tA B\n"] {
        assert_eq!(trim_to_string(t), t.trim());
    }
    assert_eq!(strip_leading("~~abc", '~'), "~~abc".trim_start_matches('~'));
    assert!(str_eq("abc", "abc"));
    assert!(!str_eq("abc", "abd"));
}

#[test]
fn padding_matches_format_macro() {
    for s in ["", "DLH1A", "AFR3360", "ABCDEFGH", "LONGCALLSIGN", "é"] {
        for w in [0usize, 1, 8, 10] {
            assert_eq!(pad_right(s, w), format!("{:<w$}", s), "{s:?} {w}");
        }
    }
}

#[test]
fn borrowed_trim_matches_str_trim() {
    for s in ["", "  ", "DLH1A  ", "  x y  ", "\u{2003}z\t\n"] {
        assert_eq!(trim(s), s.trim(), "{s:?}");
    }
}
