use weckpilot::power::{
    check_sleep_permission, prevent_sleep_args, prevent_sleep_result, sleep_seconds,
    unsupported_platform, wake_screen_args, wake_screen_result, CAFFEINATE,
};
use weckpilot::text::{contains_str, decimal_string, two_digits, chars_of, line_ranges, string_of, trim_bounds};

#[test]
fn sleep_prevention_command_line() {
    assert_eq!(CAFFEINATE, "caffeinate");
    assert_eq!(sleep_seconds(15), 900);
    assert_eq!(prevent_sleep_args(15), vec!["-d".to_string(), "-t".to_string(), "900".to_string()]);
    assert_eq!(prevent_sleep_args(0), vec!["-d".to_string(), "-t".to_string(), "0".to_string()]);
    assert_eq!(prevent_sleep_result(15, Ok(())), Ok("Sleep prevented for 15 minutes".to_string()));
    assert_eq!(prevent_sleep_result(15, Err("not found".to_string())), Err("Error: not found".to_string()));
}

#[test]
fn screen_wake_command_line() {
    assert_eq!(wake_screen_args(), vec!["-u".to_string(), "-t".to_string(), "5".to_string()]);
    assert_eq!(wake_screen_result(Ok(())), Ok("Screen awakened".to_string()));
    assert_eq!(wake_screen_result(Err("x".to_string())), Err("Error: x".to_string()));
}

#[test]
fn platform_answers() {
    assert_eq!(unsupported_platform(), "Only supported on macOS");
    assert!(check_sleep_permission(true));
    assert!(!check_sleep_permission(false));
}

#[test]
fn decimal_rendering() {
    assert_eq!(decimal_string(0), "0");
    assert_eq!(decimal_string(7), "7");
    assert_eq!(decimal_string(1234567890), "1234567890");
    assert_eq!(decimal_string(u64::MAX), u64::MAX.to_string());
    assert_eq!(two_digits(4), "04");
    assert_eq!(two_digits(42), "42");
}

#[test]
fn lines_match_str_lines() {
    for text in ["", "\n", "a", "a\n", "a\r\nb", "foo\r\nbar\n\nbaz\r", "\r\n\r\n", "x\ry\n"] {
        let v = chars_of(text);
        let got: Vec<String> = line_ranges(&v).iter().map(|&(a, b)| string_of(&v, a, b)).collect();
        let want: Vec<String> = text.lines().map(|l| l.to_string()).collect();
        assert_eq!(got, want, "{text:?}");
    }
}

#[test]
fn trimming_matches_str_trim() {
    for text in ["  a b  ", "\u{2003}x\u{3000}", "", "   ", "\u{85}y\u{200a}"] {
        let v = chars_of(text);
        let (a, b) = trim_bounds(&v, 0, v.len());
        assert_eq!(string_of(&v, a, b), text.trim(), "{text:?}");
    }
}

#[test]
fn substring_search() {
    assert!(contains_str("abcabd", "abd"));
    assert!(!contains_str("abcab", "abd"));
    assert!(contains_str("", ""));
    assert!(contains_str("Über", "ber"));
}

#[test]
fn white_space_matches_char_is_whitespace() {
    for c in (0u32..=0x10FFFF).filter_map(char::from_u32) {
        assert_eq!(weckpilot::text::white_space(c), c.is_whitespace(), "{:#x}", c as u32);
    }
}
