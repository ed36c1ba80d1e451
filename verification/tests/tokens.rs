use rpn_calc::text::{to_chars, whitespace};
use rpn_calc::token::{tokenize, Span};

fn words(line: &str) -> Vec<String> {
    let chars = to_chars(line);
    tokenize(&chars).iter().map(|span| chars[span.start..span.end].iter().collect()).collect()
}

#[test]
fn chars_are_kept_in_order() {
    assert_eq!(to_chars(""), Vec::<char>::new());
    assert_eq!(to_chars("2 3 +"), vec!['2', ' ', '3', ' ', '+']);
    assert_eq!(to_chars("a\u{3000}é"), vec!['a', '\u{3000}', 'é']);
}

#[test]
fn whitespace_is_what_std_calls_whitespace() {
    for code in 0..=0x10ffffu32 {
        if let Some(c) = char::from_u32(code) {
            assert_eq!(whitespace(c), c.is_whitespace(), "U+{:04X}", code);
        }
    }
}

#[test]
fn spans_mark_the_words() {
    let chars = to_chars("  12  +3 ");
    assert_eq!(tokenize(&chars), vec![Span { start: 2, end: 4 }, Span { start: 6, end: 8 }]);
    let chars = to_chars("a");
    assert_eq!(tokenize(&chars), vec![Span { start: 0, end: 1 }]);
    let chars = to_chars("ab cd");
    assert_eq!(tokenize(&chars), vec![Span { start: 0, end: 2 }, Span { start: 3, end: 5 }]);
}

#[test]
fn spans_count_characters_not_bytes() {
    let chars = to_chars("é\u{3000}ab");
    assert_eq!(tokenize(&chars), vec![Span { start: 0, end: 1 }, Span { start: 2, end: 4 }]);
}

#[test]
fn blank_lines_have_no_tokens() {
    assert_eq!(tokenize(&to_chars("")), vec![]);
    assert_eq!(tokenize(&to_chars(" ")), vec![]);
    assert_eq!(tokenize(&to_chars(" \t\r\n\u{a0}\u{2009} ")), vec![]);
}

#[test]
fn tokens_are_the_words_that_std_splits() {
    let lines = [
        "",
        " ",
        "1",
        "1 2 +",
        "  leading",
        "trailing  ",
        "a\tb\nc\rd",
        "x\u{3000}y\u{85}z",
        "  many   spaces   between  ",
        "é ü\u{2003}ß",
    ];
    for line in lines {
        let expected: Vec<String> = line.split_whitespace().map(String::from).collect();
        assert_eq!(words(line), expected, "{:?}", line);
    }
}
