use rush::text::{
    chars_of, appended, decimal_string, is_whitespace, join_from, same_text, string_of, trim,
};

#[test]
fn white_space_is_what_std_calls_white_space() {
    let mut c = '\0';
    loop {
        assert_eq!(is_whitespace(c), c.is_whitespace(), "at {:?}", c);
        if c == char::MAX {
            break;
        }
        c = char::from_u32(c as u32 + 1).unwrap_or('\u{e000}');
    }
}

#[test]
fn white_space_examples() {
    assert!(is_whitespace(' '));
    assert!(is_whitespace('\t'));
    assert!(is_whitespace('\n'));
    assert!(is_whitespace('\r'));
    assert!(is_whitespace('\u{a0}'));
    assert!(is_whitespace('\u{3000}'));
    assert!(!is_whitespace('a'));
    assert!(!is_whitespace('\''));
    assert!(!is_whitespace('"'));
    assert!(!is_whitespace('\u{200b}'));
    assert!(!is_whitespace('\u{180e}'));
}

#[test]
fn trim_agrees_with_std() {
    let samples = [
        "",
        " ",
        "   ",
        "a",
        " a",
        "a ",
        "  a b  ",
        "\tx\n",
        "\r\n",
        "echo hi\r\n",
        "\u{a0}wide\u{3000}",
        " 'quoted '  ",
        "in\tside",
        "\u{200b}zero width\u{200b}",
    ];
    for s in samples {
        assert_eq!(trim(s), s.trim(), "for {:?}", s);
    }
}

#[test]
fn trim_keeps_the_middle() {
    assert_eq!(trim("  two  words  "), "two  words");
    assert_eq!(trim("\n"), "");
    assert_eq!(trim("already"), "already");
}

#[test]
fn chars_and_back() {
    let v = chars_of("h\u{e9}llo");
    assert_eq!(v, vec!['h', '\u{e9}', 'l', 'l', 'o']);
    assert_eq!(string_of(&v, 0, 5), "h\u{e9}llo");
    assert_eq!(string_of(&v, 1, 3), "\u{e9}l");
    assert_eq!(string_of(&v, 2, 2), "");
    assert_eq!(chars_of(""), Vec::<char>::new());
}

#[test]
fn same_text_compares_every_character() {
    assert!(same_text("", ""));
    assert!(same_text("cd", "cd"));
    assert!(!same_text("cd", "cD"));
    assert!(!same_text("cd", "cd "));
    assert!(!same_text("cd", ""));
    assert!(!same_text("abc", "abd"));
}

#[test]
fn appended_appends() {
    assert_eq!(appended("ab", "cd"), "abcd");
    assert_eq!(appended("", "cd"), "cd");
    assert_eq!(appended("ab", ""), "ab");
}

#[test]
fn join_from_puts_the_separator_between() {
    let parts: Vec<String> = vec!["echo".into(), "a".into(), "b c".into(), "".into(), "d".into()];
    assert_eq!(join_from(&parts, 1, " "), "a b c  d");
    assert_eq!(join_from(&parts, 0, ", "), "echo, a, b c, , d");
    assert_eq!(join_from(&parts, 4, " "), "d");
    assert_eq!(join_from(&parts, 5, " "), "");
}

#[test]
fn decimal_string_writes_numerals() {
    assert_eq!(decimal_string(0), "0");
    assert_eq!(decimal_string(7), "7");
    assert_eq!(decimal_string(10), "10");
    assert_eq!(decimal_string(42), "42");
    assert_eq!(decimal_string(255), "255");
    assert_eq!(decimal_string(1009), "1009");
    assert_eq!(decimal_string(-1), "-1");
    assert_eq!(decimal_string(-120), "-120");
    assert_eq!(decimal_string(i32::MAX), "2147483647");
    assert_eq!(decimal_string(i32::MIN), "-2147483648");
}

#[test]
fn decimal_string_agrees_with_std() {
    let mut n: i32 = -5000;
    while n <= 5000 {
        assert_eq!(decimal_string(n), n.to_string());
        n += 1;
    }
}
