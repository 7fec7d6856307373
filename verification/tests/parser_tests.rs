use rusty_fractal::parser::TextParser;
use rusty_fractal::error::ErrorKind;
use rusty_fractal::parser::RawParser;

#[test]
fn get_line() {
    let text = "this is line one\nthis is line two\n\nhi";
    let mut parser = TextParser::create_from_str(text);
    assert_eq!(parser.next_line(), Ok(String::from("this is line one")));
    assert_eq!(parser.next_line(), Ok(String::from("this is line two")));
    assert_eq!(parser.next_line(), Ok(String::from("")));
    assert_eq!(parser.next_line(), Ok(String::from("hi")));
    assert!(parser.next_line().is_err());
}

#[test]
fn get_word() {
    let text = "word\ntwo\tis going";
    let mut parser = TextParser::create_from_str(text);
    assert_eq!(parser.next_word(), Ok(String::from("word")));
    assert_eq!(parser.next_word(), Ok(String::from("two")));
    assert_eq!(parser.peek_word(), Ok(String::from("is")));
    assert_eq!(parser.next_word(), Ok(String::from("is")));
    assert_eq!(parser.next_word(), Ok(String::from("going")));
}

#[test]
fn get_words() {
    let empty: Vec<String> = Vec::new();
    let text = "this is line one\nthis is line\n\ntwo";
    let mut parser = TextParser::create_from_str(text);
    assert_eq!(
        parser.next_words(),
        vec![
            String::from("this"),
            String::from("is"),
            String::from("line"),
            String::from("one")
        ]
    );
    assert_eq!(
        parser.next_words(),
        vec![String::from("this"), String::from("is"), String::from("line")]
    );
    assert_eq!(parser.next_words(), empty);
    assert_eq!(parser.next_words(), vec![String::from("two")]);
}

#[test]
fn require_word() {
    let text = "this is\na collection of\twords";
    let mut parser = TextParser::create_from_str(text);
    assert!(parser.require_word("incorrect").is_err());
    assert_eq!(parser.require_word("this"), Ok(()));
    assert!(parser.require_word("this").is_err());
}

#[test]
fn require_words() {
    let text = "one two three four five size";
    let mut parser = TextParser::create_from_str(text);
    assert!(parser.require_words(vec!["one", "twoo"]).is_err());
    assert!(parser.require_words(vec!["one", "two", "three"]).is_ok());
    assert!(parser.require_words(vec!["one"]).is_err());
    assert!(parser.require_words(vec!["one", "two", "three", "four"]).is_err());
    assert!(parser.require_words(vec!["three", "four"]).is_err());
    assert!(parser.require_words(vec!["four", "five"]).is_ok());
}

#[test]
fn next_ascii_uint32() {
    let text = "892 word 4";
    let mut parser = TextParser::create_from_str(text);
    assert_eq!(parser.next_ascii_uint32(), Ok(892));
    assert!(parser.next_ascii_uint32().is_err());
    assert_eq!(parser.next_ascii_uint32(), Ok(4));
    assert!(parser.next_ascii_uint32().is_err());
}

#[test]
fn require_strs() {
    let text = "testing 1 2 3";
    let mut parser = TextParser::create_from_str(text);
    assert!(parser.require_str("tester").is_err());
    assert!(parser.require_str("test").is_ok());
    assert!(parser.require_str("ing").is_ok());
    assert!(parser.require_str("ing").is_err());
    assert!(parser.require_str(" 1 2 3").is_ok());
}

#[test]
fn skip_comments() {
    let text = "comment ply version\n#python version\n//rust version";
    let mut parser = TextParser::create_from_str(text);

    parser.skip_single_line_comment("#");
    assert_eq!(parser.peek_line(), Ok(String::from("comment ply version")));
    parser.skip_single_line_comment("comment");
    assert_eq!(parser.peek_line(), Ok(String::from("#python version")));

    parser.skip_single_line_comment("#");
    assert_eq!(parser.peek_line(), Ok(String::from("//rust version")));
}

#[test]
fn line_sequence() {
    let mut parser = TextParser::create_from_str("a\nb\n\nc");
    assert_eq!(parser.next_line(), Ok(String::from("a")));
    assert_eq!(parser.next_line(), Ok(String::from("b")));
    assert_eq!(parser.next_line(), Ok(String::from("")));
    assert_eq!(parser.next_line(), Ok(String::from("c")));
    assert!(parser.next_line().is_err());
}

#[test]
fn peek_word_does_not_advance() {
    let mut parser = TextParser::create_from_str("  \t alpha beta");
    assert_eq!(parser.peek_word(), Ok(String::from("alpha")));
    assert_eq!(parser.peek_word(), Ok(String::from("alpha")));
    assert_eq!(parser.next_word(), Ok(String::from("alpha")));
    assert_eq!(parser.next_word(), Ok(String::from("beta")));
}

#[test]
fn require_words_cursor() {
    let mut parser = TextParser::create_from_str("one two three");
    assert_eq!(parser.require_words(vec!["one", "two"]), Ok(()));
    assert_eq!(parser.next_word(), Ok(String::from("three")));

    let mut parser = TextParser::create_from_str("one three");
    assert!(parser.require_words(vec!["one", "two"]).is_err());
    assert_eq!(parser.next_word(), Ok(String::from("one")));
}

#[test]
fn position_tracking() {
    let mut parser = TextParser::create_from_str("ab\ncd");
    assert!(parser.next_char().is_ok());
    assert!(parser.next_char().is_ok());
    assert!(parser.next_char().is_ok());
    assert_eq!(parser.current_line, 1);
    assert_eq!(parser.current_column, 0);
    assert!(parser.next_char().is_ok());
    assert_eq!(parser.current_line, 1);
    assert_eq!(parser.current_column, 1);
}

#[test]
fn require_char_mismatch() {
    let mut parser = TextParser::create_from_str("xy");
    let err = parser.require_char('a').unwrap_err();
    match err.kind {
        ErrorKind::ParserUnknownChar(c) => {
            assert_eq!(c.expected_char, 'a');
            assert_eq!(c.received_char, 'x');
            assert_eq!(c.line_number, 0);
            assert_eq!(c.column_number, 0);
        }
        other => panic!("unexpected error kind: {:?}", other),
    }
    assert_eq!(parser.require_char('x'), Ok(()));
    assert_eq!(parser.require_char('y'), Ok(()));
    assert!(parser.require_char('z').is_err());
}

#[test]
fn invalid_integer_token() {
    let mut parser = TextParser::create_from_str("12a 7");
    let err = parser.next_ascii_uint32().unwrap_err();
    match err.kind {
        ErrorKind::ParserInvalidAsciiInt(c) => {
            assert_eq!(c.received_word, "12a");
        }
        other => panic!("unexpected error kind: {:?}", other),
    }
    assert_eq!(parser.next_ascii_uint32(), Ok(7));
}

#[test]
fn invalid_integer_token_at_end() {
    let mut parser = TextParser::create_from_str("12a");
    let err = parser.next_ascii_uint32().unwrap_err();
    match err.kind {
        ErrorKind::ParserInvalidAsciiInt(c) => {
            assert_eq!(c.received_word, "12a");
        }
        other => panic!("unexpected error kind: {:?}", other),
    }
    assert!(parser.next_ascii_uint32().is_err());
}

#[test]
fn raw_cursor_little_endian() {
    let mut raw = RawParser::create_from_vec(vec![0x01, 0x00, 0x00, 0x00, 0x78, 0x56, 0x34, 0x12, 0xff]);
    assert_eq!(raw.next_raw_u32(), Ok(1));
    assert_eq!(raw.next_raw_u32(), Ok(0x12345678));
    assert_eq!(raw.get_remaining_bytes(), 1);
    assert_eq!(raw.next_raw_u8(), Ok(0xff));
    assert!(raw.next_raw_u8().is_err());
}

#[test]
fn raw_cursor_slice() {
    let mut raw = RawParser::create_from_vec(vec![1, 0, 0, 0, 2, 0, 0, 0, 3, 0, 0, 0]);
    assert_eq!(raw.next_slice(3), Ok(vec![1, 2, 3]));
    let mut short = RawParser::create_from_vec(vec![1, 0, 0]);
    assert!(short.next_slice(1).is_err());
}

#[test]
fn raw_cursor_resumes_at_text_cursor() {
    let mut parser = TextParser::create_from_str("head\n\x2a\x00\x00\x00");
    assert_eq!(parser.next_line(), Ok(String::from("head")));
    let mut raw = RawParser::from(&parser);
    assert_eq!(raw.next_raw_u32(), Ok(42));
}
