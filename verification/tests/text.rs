use gpiosim::text::{chars_of, join_path, split_fields, text_eq, to_decimal, trim};

#[test]
fn decimal_of_small_numbers() {
    assert_eq!(to_decimal(0), "0");
    assert_eq!(to_decimal(7), "7");
    assert_eq!(to_decimal(10), "10");
    assert_eq!(to_decimal(42), "42");
    assert_eq!(to_decimal(100), "100");
}

#[test]
fn decimal_of_large_numbers() {
    assert_eq!(to_decimal(4294967295), "4294967295");
    assert_eq!(to_decimal(18446744073709551615), "18446744073709551615");
}

#[test]
fn decimal_agrees_with_std() {
    for n in [1u64, 9, 11, 99, 101, 1000, 65535, 65536, 123456789] {
        assert_eq!(to_decimal(n), format!("{}", n));
    }
}

#[test]
fn join_puts_a_separator() {
    assert_eq!(join_path("/sys/kernel/config/gpio-sim", "basic"), "/sys/kernel/config/gpio-sim/basic");
    assert_eq!(join_path("a", "b/c"), "a/b/c");
}

#[test]
fn join_keeps_a_separator_that_is_there() {
    assert_eq!(join_path("/config/", "gpio-sim"), "/config/gpio-sim");
    assert_eq!(join_path("/", "dev"), "/dev");
}

#[test]
fn join_onto_nothing() {
    assert_eq!(join_path("", "bank0"), "bank0");
    assert_eq!(join_path("a", ""), "a/");
}

#[test]
fn join_with_absolute_part_replaces() {
    assert_eq!(join_path("/dev", "/etc/passwd"), "/etc/passwd");
}

#[test]
fn join_agrees_with_std() {
    for (base, part) in [("/dev", "gpiochip0"), ("/dev/", "x"), ("", "x"), ("a", "/b"), ("ä", "ö"), ("a", "")] {
        let expected = std::path::Path::new(base).join(part);
        assert_eq!(join_path(base, part), expected.to_str().unwrap());
    }
}

#[test]
fn trim_strips_both_ends() {
    assert_eq!(trim("pull-up\n"), "pull-up");
    assert_eq!(trim("  \t gpiochip0 \r\n"), "gpiochip0");
    assert_eq!(trim("a b"), "a b");
}

#[test]
fn trim_of_white_space_is_empty() {
    assert_eq!(trim(""), "");
    assert_eq!(trim(" \n\t"), "");
}

#[test]
fn trim_knows_unicode_white_space() {
    assert_eq!(trim("\u{a0}\u{2003}x\u{3000}\u{85}"), "x");
    assert_eq!(trim("\u{200b}x"), "\u{200b}x");
}

#[test]
fn trim_agrees_with_std() {
    for s in ["", " ", "x", " x", "x ", "\u{1680}é\u{2028}", "\u{2029}\u{202f}\u{205f}q", "\u{b}\u{c}z\u{1c}"] {
        assert_eq!(trim(s), s.trim());
    }
}

#[test]
fn fields_are_split_at_ascii_white_space() {
    assert_eq!(split_fields("configfs /sys/kernel/config configfs rw 0 0"), vec!["configfs", "/sys/kernel/config", "configfs", "rw", "0", "0"]);
    assert_eq!(split_fields("  a\t\tb \n"), vec!["a", "b"]);
}

#[test]
fn fields_of_nothing() {
    assert!(split_fields("").is_empty());
    assert!(split_fields(" \t\r\n\u{c}").is_empty());
}

#[test]
fn fields_keep_other_white_space() {
    assert_eq!(split_fields("a\u{a0}b c\u{b}d"), vec!["a\u{a0}b", "c\u{b}d"]);
}

#[test]
fn fields_agree_with_std() {
    for s in ["", "a", " a", "a  b", "é ü\tß", "x\u{2003}y z"] {
        let expected: Vec<&str> = s.split_ascii_whitespace().collect();
        assert_eq!(split_fields(s), expected);
    }
}

#[test]
fn chars_are_in_order() {
    assert_eq!(chars_of("piñata"), vec!['p', 'i', 'ñ', 'a', 't', 'a']);
}

#[test]
fn text_eq_compares_characters() {
    assert!(text_eq("configfs", "configfs"));
    assert!(!text_eq("configfs", "config"));
    assert!(text_eq("", ""));
}

#[test]
fn trim_agrees_with_std_on_every_character() {
    for code in 0..=0x3100u32 {
        if let Some(c) = char::from_u32(code) {
            let s = format!("{c}x{c}");
            assert_eq!(trim(&s), s.trim(), "U+{code:04X}");
        }
    }
    for c in ['\u{d7ff}', '\u{e000}', '\u{feff}', '\u{ffff}', '\u{10000}', '\u{e0020}', '\u{10ffff}'] {
        let s = format!("{c}x{c}");
        assert_eq!(trim(&s), s.trim());
    }
}

#[test]
fn fields_agree_with_std_on_every_character() {
    for code in 0..=0x3100u32 {
        if let Some(c) = char::from_u32(code) {
            let s = format!("a{c}b");
            let expected: Vec<&str> = s.split_ascii_whitespace().collect();
            assert_eq!(split_fields(&s), expected, "U+{code:04X}");
        }
    }
}
