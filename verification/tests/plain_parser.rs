use embedded_text::plain_parser::{Parser, Token};

fn collect(text: &str) -> Vec<Token<'_>> {
    let mut parser = Parser::parse(text);
    let mut out = Vec::new();
    while let Some(token) = parser.next() {
        out.push(token);
    }
    out
}

#[test]
fn parse() {
    // (At least) for now, \r is considered a whitespace
    let text = "Lorem ipsum \r dolor sit am\u{00AD}et, conse😅ctetur adipiscing\nelit";

    assert_eq!(
        collect(text),
        vec![
            Token::Word("Lorem"),
            Token::Whitespace(1),
            Token::Word("ipsum"),
            Token::Whitespace(1),
            Token::CarriageReturn,
            Token::Whitespace(1),
            Token::Word("dolor"),
            Token::Whitespace(1),
            Token::Word("sit"),
            Token::Whitespace(1),
            Token::Word("am"),
            Token::Break(Some('-')),
            Token::Word("et,"),
            Token::Whitespace(1),
            Token::Word("conse😅ctetur"),
            Token::Whitespace(1),
            Token::Word("adipiscing"),
            Token::NewLine,
            Token::Word("elit"),
        ]
    );
}

#[test]
fn parser_parse_zwsp() {
    let text = "two\u{200B}words";
    assert_eq!(9, "two\u{200B}words".chars().count());

    assert_eq!(
        collect(text),
        vec![Token::Word("two"), Token::Break(None), Token::Word("words")]
    );

    assert_eq!(collect("  \u{200B} "), vec![Token::Whitespace(3)]);
}

#[test]
fn parser_parse_multibyte_last() {
    let text = "test😅";

    assert_eq!(collect(text), vec![Token::Word("test😅"),]);
}

#[test]
fn parser_parse_nbsp_as_word_char() {
    let text = "test\u{A0}word";

    assert_eq!(9, "test\u{A0}word".chars().count());
    assert_eq!(collect(text), vec![Token::Word("test\u{A0}word"),]);
    assert_eq!(
        collect(" \u{A0}word"),
        vec![Token::Whitespace(1), Token::Word("\u{A0}word"),]
    );
}

#[test]
fn parser_parse_shy_issue_42() {
    let text = "f\u{AD}cali";
    println!("{:?}", "f\u{AD}cali");

    assert_eq!(
        collect(text),
        vec![
            Token::Word("f"),
            Token::Break(Some('-')),
            Token::Word("cali"),
        ]
    );
}

#[test]
fn plain_parser_tab_is_part_of_whitespace() {
    assert_eq!(
        collect("a \t b"),
        vec![Token::Word("a"), Token::Whitespace(3), Token::Word("b")]
    );
}

#[test]
fn plain_parser_peek_does_not_advance() {
    let parser = Parser::parse("word rest");
    assert_eq!(parser.peek(), Some(Token::Word("word")));
    assert_eq!(parser.peek(), Some(Token::Word("word")));
    assert!(!parser.is_empty());
    assert!(Parser::parse("").is_empty());
}
