use habit_tracker::chars::{find, string_of, to_chars};
use habit_tracker::decimal::{parse_chars, push_decimal};
use habit_tracker::{parse_number, MenuOption};

#[test]
fn parse_number_reads_digits() {
    assert_eq!(parse_number("0"), Some(0));
    assert_eq!(parse_number("7"), Some(7));
    assert_eq!(parse_number("42"), Some(42));
    assert_eq!(parse_number("1234567890"), Some(1234567890));
    assert_eq!(parse_number("4294967295"), Some(u32::MAX));
}

#[test]
fn parse_number_takes_a_plus_sign_and_zeros_in_front() {
    assert_eq!(parse_number("+0"), Some(0));
    assert_eq!(parse_number("+42"), Some(42));
    assert_eq!(parse_number("000"), Some(0));
    assert_eq!(parse_number("0000000000000000000042"), Some(42));
    assert_eq!(parse_number("+0000000004294967295"), Some(u32::MAX));
}

#[test]
fn parse_number_refuses_what_is_no_number() {
    for text in ["", "+", "-", "-0", "-5", "++5", "+-5", "5+", "a", "12a", "a12", " 12", "12 ", "1 2", "1_2", "1.0", "٣", "１"] {
        assert_eq!(parse_number(text), None, "text {:?}", text);
    }
}

#[test]
fn parse_number_refuses_what_does_not_fit() {
    assert_eq!(parse_number("4294967296"), None);
    assert_eq!(parse_number("4294967300"), None);
    assert_eq!(parse_number("42949672950"), None);
    assert_eq!(parse_number("+99999999999"), None);
    assert_eq!(parse_number("18446744073709551616"), None);
}

#[test]
fn parse_number_agrees_with_the_standard_library() {
    for text in ["", "0", "+", "+1", "-1", "01", "4294967295", "4294967296", "1e3", "12\n", "٣"] {
        assert_eq!(parse_number(text), text.parse::<u32>().ok(), "text {:?}", text);
    }
}

#[test]
fn parse_chars_reads_a_slice() {
    assert_eq!(parse_chars(&['1', '0', '5']), Some(105));
    assert_eq!(parse_chars(&['+', '9']), Some(9));
    assert_eq!(parse_chars(&[]), None);
    assert_eq!(parse_chars(&['9', ':']), None);
}

#[test]
fn push_decimal_writes_every_digit() {
    let cases = [
        (0u32, "0"),
        (1, "1"),
        (2, "2"),
        (3, "3"),
        (4, "4"),
        (5, "5"),
        (6, "6"),
        (7, "7"),
        (8, "8"),
        (9, "9"),
        (10, "10"),
        (99, "99"),
        (100, "100"),
        (1205, "1205"),
        (9876543, "9876543"),
        (u32::MAX, "4294967295"),
    ];
    for (n, digits) in cases {
        let mut out = String::from("n=");
        push_decimal(&mut out, n);
        assert_eq!(out, format!("n={}", digits));
    }
}

#[test]
fn push_decimal_and_parse_number_undo_each_other() {
    for n in [0u32, 1, 9, 10, 11, 99, 100, 65535, 65536, 999999999, 1000000000, u32::MAX - 1, u32::MAX] {
        let mut out = String::new();
        push_decimal(&mut out, n);
        assert_eq!(out, n.to_string());
        assert_eq!(parse_number(&out), Some(n));
    }
}

#[test]
fn to_chars_and_string_of_keep_every_character() {
    let text = "añ☕:\n\r";
    let chars = to_chars(text);
    assert_eq!(chars, vec!['a', 'ñ', '☕', ':', '\n', '\r']);
    assert_eq!(string_of(&chars), text);
    assert_eq!(string_of(&chars[1..3]), "ñ☕");
    assert_eq!(to_chars(""), Vec::<char>::new());
    assert_eq!(string_of(&[]), "");
}

#[test]
fn find_gives_the_first_index_or_the_length() {
    assert_eq!(find(&['a', ':', 'b', ':'], ':'), 1);
    assert_eq!(find(&[':', ':'], ':'), 0);
    assert_eq!(find(&['a', 'b'], ':'), 2);
    assert_eq!(find(&[], ':'), 0);
}

#[test]
fn menu_options_are_numbered_from_one() {
    assert_eq!(MenuOption::from_number(1), Some(MenuOption::AddHabit));
    assert_eq!(MenuOption::from_number(2), Some(MenuOption::MarkComplete));
    assert_eq!(MenuOption::from_number(3), Some(MenuOption::MarkIncomplete));
    assert_eq!(MenuOption::from_number(4), Some(MenuOption::ViewHabits));
    assert_eq!(MenuOption::from_number(5), Some(MenuOption::RemoveHabit));
    assert_eq!(MenuOption::from_number(6), Some(MenuOption::Exit));
}

#[test]
fn other_numbers_are_no_menu_option() {
    assert_eq!(MenuOption::from_number(0), None);
    assert_eq!(MenuOption::from_number(7), None);
    assert_eq!(MenuOption::from_number(u32::MAX), None);
}
