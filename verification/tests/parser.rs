use embedded_graphics::pixelcolor::BinaryColor;
use embedded_text::parser::chars::{is_space_char, is_whitespace, is_word_char};
use embedded_text::parser::{Parser, Token};

fn tokens(text: &str) -> Vec<Token<'_, BinaryColor>> {
    let mut parser = Parser::parse(text);
    let mut out = Vec::new();
    while let Some(token) = parser.next() {
        out.push(token);
    }
    out
}

fn assert_tokens(text: &str, expected: Vec<Token<BinaryColor>>) {
    assert_eq!(tokens(text), expected)
}

#[test]
fn test_parse() {
    assert_tokens(
        "Lorem ipsum \r dolor sit am\u{00AD}et,\tconse😅ctetur adipiscing\nelit",
        vec![
            Token::Word("Lorem"),
            Token::Whitespace(1, " "),
            Token::Word("ipsum"),
            Token::Whitespace(1, " "),
            Token::CarriageReturn,
            Token::Whitespace(1, " "),
            Token::Word("dolor"),
            Token::Whitespace(1, " "),
            Token::Word("sit"),
            Token::Whitespace(1, " "),
            Token::Word("am"),
            Token::Break("-", "\u{ad}"),
            Token::Word("et,"),
            Token::Tab,
            Token::Word("conse😅ctetur"),
            Token::Whitespace(1, " "),
            Token::Word("adipiscing"),
            Token::NewLine,
            Token::Word("elit"),
        ],
    );
}

#[test]
fn mod_parse_zwsp() {
    assert_eq!(9, "two\u{200B}words".chars().count());

    assert_tokens(
        "two\u{200B}words",
        vec![
            Token::Word("two"),
            Token::Whitespace(0, "\u{200B}"),
            Token::Word("words"),
        ],
    );

    // ZWSP is not counted
    assert_tokens("  \u{200B} ", vec![Token::Whitespace(3, "  \u{200B} ")]);
}

#[test]
fn mod_parse_multibyte_last() {
    assert_tokens("test😅", vec![Token::Word("test😅")]);
}

#[test]
fn mod_parse_nbsp_as_word_char() {
    assert_eq!(9, "test\u{A0}word".chars().count());
    assert_tokens("test\u{A0}word", vec![Token::Word("test\u{A0}word")]);
    assert_tokens(
        " \u{A0}word",
        vec![Token::Whitespace(1, " "), Token::Word("\u{A0}word")],
    );
}

#[test]
fn mod_parse_shy_issue_42() {
    assert_tokens(
        "foo\u{AD}bar",
        vec![
            Token::Word("foo"),
            Token::Break("-", "\u{ad}"),
            Token::Word("bar"),
        ],
    );
}

#[test]
fn parser_empty_text_has_no_tokens() {
    assert_tokens("", vec![]);
}

#[test]
fn parser_whitespace_run_stops_at_line_break_and_tab() {
    assert_tokens(
        "  \n\t \r",
        vec![
            Token::Whitespace(2, "  "),
            Token::NewLine,
            Token::Tab,
            Token::Whitespace(1, " "),
            Token::CarriageReturn,
        ],
    );
}

#[test]
fn parser_leading_zwsp_is_a_zero_width_whitespace() {
    assert_tokens("\u{200B} a", vec![
        Token::Whitespace(0, "\u{200B}"),
        Token::Whitespace(1, " "),
        Token::Word("a"),
    ]);
}

#[test]
fn parser_as_str_returns_the_rest() {
    let mut parser: Parser<BinaryColor> = Parser::parse("ab cd");
    assert_eq!(parser.next(), Some(Token::Word("ab")));
    assert_eq!(parser.as_str(), " cd");
}

#[test]
fn whitespace_classes_agree_with_std() {
    for code in 0u32..=0x10FFFF {
        if let Some(c) = char::from_u32(code) {
            assert_eq!(is_whitespace(c), c.is_whitespace(), "{:?}", c);
        }
    }
}

#[test]
fn parser_tokens_spell_the_text() {
    let text = "Lorem ipsum \r dolor\u{200B}sit am\u{00AD}et,\tconse😅ctetur  \u{200B} adipiscing\nelit";
    let mut spelled = String::new();
    for token in tokens(text) {
        match token {
            Token::NewLine => spelled.push('\n'),
            Token::CarriageReturn => spelled.push('\r'),
            Token::Tab => spelled.push('\t'),
            Token::Whitespace(_, s) => spelled.push_str(s),
            Token::Word(w) => spelled.push_str(w),
            Token::Break(_, s) => spelled.push_str(s),
            Token::ChangeTextStyle(_) | Token::MoveCursor { .. } => unreachable!(),
        }
    }
    assert_eq!(spelled, text);
}

fn source_text<'a>(token: &Token<'a, BinaryColor>) -> String {
    match token {
        Token::Word(w) => w.to_string(),
        Token::Whitespace(_, t) => t.to_string(),
        Token::Break(_, t) => t.to_string(),
        Token::NewLine => "\n".to_string(),
        Token::CarriageReturn => "\r".to_string(),
        Token::Tab => "\t".to_string(),
        _ => String::new(),
    }
}

#[test]
fn token_stream_spells_text_with_maximal_words() {
    let text = "Lorem  ipsum\u{200B}\u{200B} x\u{00A0}y \u{00AD}z\r\n\tend";
    let toks = tokens(text);
    let spelled: String = toks.iter().map(source_text).collect();
    assert_eq!(spelled, text);
    for pair in toks.windows(2) {
        assert!(!(matches!(pair[0], Token::Word(_)) && matches!(pair[1], Token::Word(_))));
    }
    for t in &toks {
        assert!(!matches!(t, Token::ChangeTextStyle(_) | Token::MoveCursor { .. }));
        if let Token::Whitespace(n, s) = t {
            assert!(!s.is_empty());
            assert!(s.chars().all(is_space_char));
            assert_eq!(*n as usize, s.chars().filter(|c| *c != '\u{200B}').count());
        }
        if let Token::Word(w) = t {
            assert!(!w.is_empty());
            assert!(w.chars().all(is_word_char));
        }
    }
}
