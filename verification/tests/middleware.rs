use embedded_graphics::pixelcolor::BinaryColor;
use embedded_text::middleware::{Middleware, MiddlewareWrapper, NoMiddleware};
use embedded_text::plain_parser::{Parser, Token};
use embedded_text::plugin::ProcessingState;

#[test]
fn no_middleware_passes_tokens() {
    let mut m: NoMiddleware<BinaryColor> = NoMiddleware::new();
    let mut source = Parser::parse("a b");
    assert_eq!(m.next_token(&mut source), Some(Token::Word("a")));
    assert_eq!(m.render_token(Token::Whitespace(1)), Some(Token::Whitespace(1)));
}

#[test]
fn peek_then_consume_advances_by_the_peeked_bytes() {
    let mut wrapper = MiddlewareWrapper::new(NoMiddleware::<BinaryColor>::default());
    let mut source = Parser::parse("wörd rest");
    assert_eq!(wrapper.peek_token(&mut source), Some(Token::Word("wörd")));
    assert_eq!(wrapper.peeked_token.0, "wörd".len());
    assert_eq!(source.as_str(), "wörd rest");
    // a second peek returns the same token
    assert_eq!(wrapper.peek_token(&mut source), Some(Token::Word("wörd")));
    wrapper.consume_peeked_token(&mut source);
    assert_eq!(source.as_str(), " rest");
    assert_eq!(wrapper.peeked_token, (0, None));
    assert_eq!(wrapper.peek_token(&mut source), Some(Token::Whitespace(1)));
}

#[test]
fn replace_peeked_token_then_consume() {
    let mut wrapper = MiddlewareWrapper::new(NoMiddleware::<BinaryColor>::new());
    let mut source = Parser::parse("abc def");
    wrapper.replace_peeked_token(1, Token::Word("a"));
    assert_eq!(wrapper.peek_token(&mut source), Some(Token::Word("a")));
    wrapper.consume_peeked_token(&mut source);
    assert_eq!(source.as_str(), "bc def");
}

#[test]
fn wrapper_state_and_new_line() {
    let mut wrapper = MiddlewareWrapper::new(NoMiddleware::<BinaryColor>::new());
    assert_eq!(wrapper.state, ProcessingState::Measure);
    wrapper.set_state(ProcessingState::Render);
    assert_eq!(wrapper.render_token(Token::NewLine), Some(Token::NewLine));
    let mut source = Parser::parse("x");
    wrapper.peek_token(&mut source);
    wrapper.new_line();
    assert_eq!(wrapper.peeked_token, (0, None));
    assert_eq!(wrapper.state, ProcessingState::Render);
}

#[test]
fn parser_consume_bytes() {
    let mut source = Parser::parse("😅ab");
    source.consume(4);
    assert_eq!(source.as_str(), "ab");
}

#[test]
fn peek_then_consume_equals_one_parser_step() {
    for text in ["wörd rest", "  \u{200B} x", "\r\nab", ""] {
        let mut wrapper = MiddlewareWrapper::new(NoMiddleware::<BinaryColor>::new());
        let mut source = Parser::parse(text);
        let mut reference = source;
        let peeked = wrapper.peek_token(&mut source);
        assert_eq!(source.as_str(), text);
        let expected = reference.next();
        assert_eq!(peeked, expected);
        wrapper.consume_peeked_token(&mut source);
        assert_eq!(source.as_str(), reference.as_str());
    }
}
