use rush::util::{line_from_read, RushError, Tokenizer};

fn split(input: &str) -> Result<Vec<String>, RushError> {
    Tokenizer::from(Some(input.to_string()))?.tokenize()
}

fn unterminated(input: &str) -> bool {
    matches!(split(input), Err(RushError::UnterminatedQuote))
}

#[test]
fn blank_lines_have_no_tokens() {
    let mut line = String::new();
    for _ in 0..40 {
        assert_eq!(split(&line).unwrap(), Vec::<String>::new());
        line.push(' ');
    }
}

#[test]
fn runs_of_spaces_count_as_one() {
    let single = split("a b c").unwrap();
    assert_eq!(single, vec!["a", "b", "c"]);
    for n in 1..6 {
        for m in 1..6 {
            let line = format!("a{}b{}c", " ".repeat(n), " ".repeat(m));
            assert_eq!(split(&line).unwrap(), single);
        }
    }
}

#[test]
fn outer_spaces_change_nothing() {
    assert_eq!(split("  x 'y z'  ").unwrap(), split("x 'y z'").unwrap());
    assert_eq!(split("   'only'").unwrap(), vec!["only"]);
    assert_eq!(split("  a").unwrap(), vec!["a"]);
}

#[test]
fn double_quoted_span_stays_one_token() {
    assert_eq!(
        split("echo \"hello world\"").unwrap(),
        vec!["echo", "hello world"]
    );
}

#[test]
fn quoted_spans_before_any_bare_word_run_together() {
    assert_eq!(
        split("'first' 'second' 'third'").unwrap(),
        vec!["firstsecondthird"]
    );
    assert_eq!(
        split("\"first\"   'second'").unwrap(),
        vec!["firstsecond"]
    );
}

#[test]
fn a_bare_word_after_quoted_spans_stands_alone() {
    assert_eq!(split("'b' c").unwrap(), vec!["b", "c"]);
    assert_eq!(split("'a' 'b' c d").unwrap(), vec!["ab", "c", "d"]);
    assert_eq!(split("x 'a' 'b'").unwrap(), vec!["x", "a", "b"]);
}

#[test]
fn touching_spans_make_one_token() {
    assert_eq!(split("pre'fix'").unwrap(), vec!["prefix"]);
    assert_eq!(split("'pre'fix").unwrap(), vec!["prefix"]);
    assert_eq!(split("'a'b'c'").unwrap(), vec!["abc"]);
    assert_eq!(split("x 'a'b c").unwrap(), vec!["x", "ab", "c"]);
    assert_eq!(split("a'b c'd e").unwrap(), vec!["ab cd", "e"]);
}

#[test]
fn empty_spans_leave_no_trace() {
    assert_eq!(split("''").unwrap(), Vec::<String>::new());
    assert_eq!(split("\"\"").unwrap(), Vec::<String>::new());
    assert_eq!(split("a '' b").unwrap(), vec!["a", "b"]);
    assert_eq!(split("a''b").unwrap(), vec!["ab"]);
    assert_eq!(split("''a").unwrap(), vec!["a"]);
    assert_eq!(split("a''").unwrap(), vec!["a"]);
    assert_eq!(split("echo \"\"").unwrap(), vec!["echo"]);
}

#[test]
fn spaces_inside_quotes_are_kept() {
    assert_eq!(split("x ' '").unwrap(), vec!["x", " "]);
    assert_eq!(split("x '  a  '").unwrap(), vec!["x", "  a  "]);
    assert_eq!(split("' lead and trail '").unwrap(), vec![" lead and trail "]);
}

#[test]
fn only_the_space_separates() {
    assert_eq!(split("a\tb").unwrap(), vec!["a\tb"]);
    assert_eq!(split("h\u{e9}llo w\u{f6}rld").unwrap(), vec!["h\u{e9}llo", "w\u{f6}rld"]);
}

#[test]
fn odd_number_of_quotes_is_unterminated() {
    assert!(unterminated("'"));
    assert!(unterminated("\""));
    assert!(unterminated("echo '"));
    assert!(unterminated("'echo"));
    assert!(unterminated("a 'b' 'c"));
    assert!(unterminated("a'b'c'"));
    assert!(unterminated("'''"));
    assert!(unterminated("'h\u{e9}llo"));
    assert!(unterminated("\"it's\""));
    assert!(unterminated("say 'a b "));
}

#[test]
fn even_number_of_quotes_is_terminated() {
    assert!(split("").is_ok());
    assert!(split("''").is_ok());
    assert!(split("'a' 'b'").is_ok());
    assert!(split("''''").is_ok());
    assert_eq!(split("'a\"").unwrap(), vec!["a"]);
    assert_eq!(split("\"a b' c").unwrap(), vec!["a b", "c"]);
}

#[test]
fn no_token_is_empty_or_holds_a_quote() {
    let lines = [
        "a '' b \"\" c",
        "'x'\"y\" z",
        "  ''  ''  ",
        "one 'two three' four\"five\"",
    ];
    for line in lines {
        for token in split(line).unwrap() {
            assert!(!token.is_empty());
            assert!(!token.contains('\''));
            assert!(!token.contains('"'));
        }
    }
}

#[test]
fn the_line_is_trimmed_first() {
    assert_eq!(split("\techo hi\r\n").unwrap(), vec!["echo", "hi"]);
    assert_eq!(split("\u{a0}echo\u{a0}").unwrap(), vec!["echo"]);
}

#[test]
fn tokenizing_twice_gives_the_same() {
    let mut t = Tokenizer::from(Some("a 'b c' d\n".to_string())).unwrap();
    let first = t.tokenize().unwrap();
    let second = t.tokenize().unwrap();
    assert_eq!(first, vec!["a", "b c", "d"]);
    assert_eq!(first, second);
}

#[test]
fn no_line_is_unexpected_end_of_input() {
    assert!(matches!(
        Tokenizer::from(None),
        Err(RushError::UnexpectedEOF)
    ));
    assert!(Tokenizer::from(Some(String::new())).is_ok());
}

#[test]
fn a_read_of_no_byte_is_the_end_of_input() {
    assert_eq!(line_from_read(Some(0), String::new()), None);
    assert_eq!(line_from_read(None, String::new()), None);
    assert_eq!(line_from_read(None, "half a li".to_string()), None);
    assert_eq!(line_from_read(Some(1), "\n".to_string()), Some("\n".to_string()));
    assert_eq!(line_from_read(Some(3), "ls\n".to_string()), Some("ls\n".to_string()));
    assert!(matches!(
        Tokenizer::from(line_from_read(Some(0), String::new())),
        Err(RushError::UnexpectedEOF)
    ));
    let mut t = Tokenizer::from(line_from_read(Some(1), "\n".to_string())).unwrap();
    assert_eq!(t.tokenize().unwrap(), Vec::<String>::new());
}
