use regex_railroad::literal::{control, py_char_str, py_str};
use regex_railroad::text::{code_of, push_decimal, push_upper_hex};

#[test]
fn plain_char_is_quoted() {
    assert_eq!(py_char_str('a'), "'a'");
    assert_eq!(py_char_str('-'), "'-'");
    assert_eq!(py_char_str('\u{e9}'), "'\u{e9}'");
}

#[test]
fn quote_char_is_escaped() {
    assert_eq!(py_char_str('\''), "'\\''");
}

#[test]
fn backslash_char_is_doubled() {
    assert_eq!(py_char_str('\\'), "'\\\\'");
}

#[test]
fn control_char_is_written_as_code() {
    assert_eq!(py_char_str('\n'), "'<A>'");
    assert_eq!(py_char_str('\0'), "'<0>'");
    assert_eq!(py_char_str('\u{1f}'), "'<1F>'");
    assert_eq!(py_char_str('\u{7f}'), "'<7F>'");
    assert_eq!(py_char_str('\u{9f}'), "'<9F>'");
}

#[test]
fn high_char_is_written_as_code() {
    assert_eq!(py_char_str('\u{ffff}'), "'<FFFF>'");
    assert_eq!(py_char_str('\u{1f600}'), "'<1F600>'");
    assert_eq!(py_char_str('\u{10ffff}'), "'<10FFFF>'");
}

#[test]
fn chars_next_to_the_limits_pass() {
    assert_eq!(py_char_str(' '), "' '");
    assert_eq!(py_char_str('~'), "'~'");
    assert_eq!(py_char_str('\u{a0}'), "'\u{a0}'");
    assert_eq!(py_char_str('\u{fffe}'), "'\u{fffe}'");
}

#[test]
fn empty_string_is_two_quotes() {
    assert_eq!(py_str(""), "''");
}

#[test]
fn plain_string_is_quoted() {
    assert_eq!(py_str("abc"), "'abc'");
    assert_eq!(py_str("= 3 times"), "'= 3 times'");
    assert_eq!(py_str("\u{2265} 2 times"), "'\u{2265} 2 times'");
}

#[test]
fn quote_in_string_is_escaped() {
    assert_eq!(py_str("a'b"), "'a\\'b'");
    assert_eq!(py_str("''"), "'\\'\\''");
}

#[test]
fn backslash_in_string_passes() {
    assert_eq!(py_str("\\d"), "'\\d'");
    assert_eq!(py_str("\\\\b"), "'\\\\b'");
}

#[test]
fn control_and_high_chars_in_string_are_written_as_codes() {
    assert_eq!(py_str("a\nb"), "'a<A>b'");
    assert_eq!(py_str("\t"), "'<9>'");
    assert_eq!(py_str("\u{85}"), "'<85>'");
    assert_eq!(py_str("x\u{ffff}y\u{10000}z"), "'x<FFFF>y<10000>z'");
    assert_eq!(py_str("\u{fffe}"), "'\u{fffe}'");
}

#[test]
fn control_chars_are_the_two_blocks() {
    assert!(control('\0'));
    assert!(control('\u{1f}'));
    assert!(!control(' '));
    assert!(!control('~'));
    assert!(control('\u{7f}'));
    assert!(control('\u{9f}'));
    assert!(!control('\u{a0}'));
    assert!(!control('q'));
}

#[test]
fn control_agrees_with_std() {
    let mut code: u32 = 0;
    while code <= 0x10ffff {
        if let Some(c) = char::from_u32(code) {
            assert_eq!(control(c), c.is_control());
        }
        code += 1;
    }
}

#[test]
fn decimal_digits() {
    let mut s = String::new();
    push_decimal(&mut s, 0);
    assert_eq!(s, "0");
    push_decimal(&mut s, 7);
    assert_eq!(s, "07");
    let mut t = String::from("n=");
    push_decimal(&mut t, 120);
    assert_eq!(t, "n=120");
    let mut u = String::new();
    push_decimal(&mut u, u32::MAX);
    assert_eq!(u, "4294967295");
}

#[test]
fn decimal_agrees_with_std() {
    for n in [0u32, 1, 9, 10, 11, 99, 100, 101, 12345, 1000000, u32::MAX - 1] {
        let mut s = String::new();
        push_decimal(&mut s, n);
        assert_eq!(s, format!("{}", n));
    }
}

#[test]
fn upper_hex_digits() {
    let mut s = String::new();
    push_upper_hex(&mut s, 0);
    assert_eq!(s, "0");
    let mut t = String::new();
    push_upper_hex(&mut t, 0xabcdef);
    assert_eq!(t, "ABCDEF");
    let mut u = String::new();
    push_upper_hex(&mut u, 0x10);
    assert_eq!(u, "10");
    let mut v = String::new();
    push_upper_hex(&mut v, u32::MAX);
    assert_eq!(v, "FFFFFFFF");
}

#[test]
fn upper_hex_agrees_with_std() {
    for n in [0u32, 9, 10, 15, 16, 255, 256, 0xd7ff, 0xe000, 0x10ffff] {
        let mut s = String::new();
        push_upper_hex(&mut s, n);
        assert_eq!(s, format!("{:X}", n));
    }
}

#[test]
fn code_of_char() {
    assert_eq!(code_of('a'), 97);
    assert_eq!(code_of('\u{10ffff}'), 0x10ffff);
}
