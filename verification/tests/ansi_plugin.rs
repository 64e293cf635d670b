use embedded_text::color::{palette_color, Rgb};
use embedded_text::parser::{ChangeTextStyle, DecorationColor, Parser, Token};
use embedded_text::plugin::ansi::utils::{try_parse_sgr, Sgr};
use embedded_text::plugin::ansi::{escape_token, Ansi, EscapeCode};
use embedded_text::plugin::{Plugin, PluginWrapper, ProcessingState};

fn collect<'a>(text: &'a str) -> Vec<Token<'a, Rgb>> {
    let mut source = Parser::parse(text);
    let mut plugin = Ansi::new();
    let mut out = Vec::new();
    while let Some(token) = plugin.next_token(&mut source) {
        out.push(token);
    }
    out
}

#[test]
fn ansi_plugin_color_tokens() {
    assert_eq!(
        collect("Lorem \x1b[92mIpsum"),
        vec![
            Token::Word("Lorem"),
            Token::Whitespace(1, " "),
            Token::ChangeTextStyle(ChangeTextStyle::TextColor(Some(Rgb::new(22, 198, 12)))),
            Token::Word("Ipsum"),
        ]
    );
}

#[test]
fn ansi_plugin_escape_inside_word() {
    assert_eq!(
        collect("Lorem foo\x1b[92mbarum"),
        vec![
            Token::Word("Lorem"),
            Token::Whitespace(1, " "),
            Token::Word("foo"),
            Token::ChangeTextStyle(ChangeTextStyle::TextColor(Some(Rgb::new(22, 198, 12)))),
            Token::Word("barum"),
        ]
    );
}

#[test]
fn ansi_cursor_movement_tokens() {
    assert_eq!(
        collect("foo\x1b[2Dsample"),
        vec![
            Token::Word("foo"),
            Token::MoveCursor { chars: -2, draw_background: true },
            Token::Word("sample"),
        ]
    );
    assert_eq!(
        collect("\x1b[3Cx"),
        vec![
            Token::MoveCursor { chars: 3, draw_background: true },
            Token::Word("x"),
        ]
    );
}

#[test]
fn ansi_underline_on_and_off() {
    assert_eq!(
        collect("\x1b[4munderlined\x1b[24m"),
        vec![
            Token::ChangeTextStyle(ChangeTextStyle::Underline(DecorationColor::TextColor)),
            Token::Word("underlined"),
            Token::ChangeTextStyle(ChangeTextStyle::Underline(DecorationColor::NoDecoration)),
            Token::Word(""),
        ]
    );
}

#[test]
fn ansi_unparsable_escape_is_kept_as_word() {
    assert_eq!(
        collect("\x1bxyz"),
        vec![Token::Word("\u{1b}"), Token::Word("xyz")]
    );
}

#[test]
fn ansi_unsupported_sequence_is_skipped_and_text_kept() {
    // `\x1b[2J` (erase display) is not supported: it is skipped, the rest is normal text.
    assert_eq!(
        collect("\x1b[2Jhello kept"),
        vec![Token::Word("hello"), Token::Whitespace(1, " "), Token::Word("kept")]
    );
}

#[test]
fn ansi_unsupported_graphics_mode_is_skipped_and_text_kept() {
    // `\x1b[5m` (blink) is a graphics mode that is not supported.
    assert_eq!(collect("\x1b[5mtext"), vec![Token::Word("text")]);
}

#[test]
fn escape_token_of_commands() {
    assert_eq!(
        escape_token(&EscapeCode::CursorForward(3)),
        Some(Token::MoveCursor { chars: 3, draw_background: true })
    );
    assert_eq!(
        escape_token(&EscapeCode::CursorBackward(3)),
        Some(Token::MoveCursor { chars: -3, draw_background: true })
    );
    assert_eq!(
        escape_token(&EscapeCode::SetGraphicsMode(vec![31])),
        Some(Token::ChangeTextStyle(ChangeTextStyle::TextColor(Some(Rgb::new(197, 15, 31)))))
    );
    assert_eq!(escape_token::<'static>(&EscapeCode::SetGraphicsMode(vec![5])), None);
    assert_eq!(escape_token::<'static>(&EscapeCode::Other), None);
}

#[test]
fn ansi_8bit_and_24bit_colors() {
    assert_eq!(
        collect("\x1b[38;5;12mA\x1b[48;2;1;2;3mB"),
        vec![
            Token::ChangeTextStyle(ChangeTextStyle::TextColor(Some(Rgb::new(59, 120, 255)))),
            Token::Word("A"),
            Token::ChangeTextStyle(ChangeTextStyle::BackgroundColor(Some(Rgb::new(1, 2, 3)))),
            Token::Word("B"),
        ]
    );
}

#[test]
fn sgr_codes() {
    assert_eq!(try_parse_sgr(&[0]), Some(Sgr::Reset));
    assert_eq!(try_parse_sgr(&[9]), Some(Sgr::CrossedOut));
    assert_eq!(try_parse_sgr(&[29]), Some(Sgr::NotCrossedOut));
    assert_eq!(try_parse_sgr(&[39]), Some(Sgr::DefaultTextColor));
    assert_eq!(try_parse_sgr(&[49]), Some(Sgr::DefaultBackgroundColor));
    assert_eq!(try_parse_sgr(&[31]), Some(Sgr::ChangeTextColor(Rgb::new(197, 15, 31))));
    assert_eq!(try_parse_sgr(&[107]), Some(Sgr::ChangeBackgroundColor(Rgb::new(242, 242, 242))));
    assert_eq!(try_parse_sgr(&[38, 5, 16]), Some(Sgr::ChangeTextColor(Rgb::new(0, 0, 0))));
    assert_eq!(try_parse_sgr(&[38, 5, 231]), Some(Sgr::ChangeTextColor(Rgb::new(255, 255, 255))));
    assert_eq!(try_parse_sgr(&[48, 5, 244]), Some(Sgr::ChangeBackgroundColor(Rgb::new(132, 132, 132))));
    assert_eq!(try_parse_sgr(&[48, 5, 255]), Some(Sgr::ChangeBackgroundColor(Rgb::new(255, 255, 255))));
    assert_eq!(try_parse_sgr(&[38, 7]), None);
    assert_eq!(try_parse_sgr(&[1]), None);
    assert_eq!(try_parse_sgr(&[]), None);
    assert_eq!(
        ChangeTextStyle::from(Sgr::CrossedOut),
        ChangeTextStyle::<Rgb>::Strikethrough(DecorationColor::TextColor)
    );
}

#[test]
fn wrapper_peek_is_stable_until_consumed() {
    let mut source = Parser::parse("one two");
    let mut wrapper = PluginWrapper::new(Ansi::new());
    assert_eq!(wrapper.peek_token(&mut source), Some(Token::Word("one")));
    assert_eq!(wrapper.peek_token(&mut source), Some(Token::Word("one")));
    wrapper.consume_peeked_token();
    assert_eq!(wrapper.peek_token(&mut source), Some(Token::Whitespace(1, " ")));
}

#[test]
fn wrapper_consume_partial() {
    let mut source = Parser::parse("wörds   x");
    let mut wrapper = PluginWrapper::new(Ansi::new());
    assert_eq!(wrapper.peek_token(&mut source), Some(Token::Word("wörds")));
    wrapper.consume_partial(2);
    assert_eq!(wrapper.peek_token(&mut source), Some(Token::Word("rds")));
    wrapper.consume_partial(10);
    assert_eq!(wrapper.peek_token(&mut source), Some(Token::Word("")));
    wrapper.consume_peeked_token();
    assert_eq!(wrapper.peek_token(&mut source), Some(Token::Whitespace(3, "   ")));
    wrapper.consume_partial(1);
    assert_eq!(wrapper.peek_token(&mut source), Some(Token::Whitespace(2, "  ")));
}

#[test]
fn wrapper_render_token_passes_tokens_while_measuring() {
    let mut wrapper: PluginWrapper<Ansi<Rgb>, Rgb> = PluginWrapper::new(Ansi::new());
    assert_eq!(wrapper.state, ProcessingState::Measure);
    assert_eq!(wrapper.render_token(Token::Word("w")), Some(Token::Word("w")));
    wrapper.set_state(ProcessingState::Render);
    assert_eq!(wrapper.render_token(Token::Tab), Some(Token::Tab));
}

#[test]
fn ansi_passes_plain_text_unchanged() {
    let text = "plain text\twith\u{AD}breaks\nand lines";
    let mut parser = Parser::<Rgb>::parse(text);
    let mut expected = Vec::new();
    while let Some(token) = parser.next() {
        expected.push(token);
    }
    assert_eq!(collect(text), expected);
}

#[test]
fn sgr_text_and_background_codes_agree() {
    for i in 0u8..8 {
        let Some(Sgr::ChangeTextColor(text)) = try_parse_sgr(&[30 + i]) else { panic!() };
        let Some(Sgr::ChangeBackgroundColor(back)) = try_parse_sgr(&[40 + i]) else { panic!() };
        assert_eq!(text, back);
        assert_eq!(try_parse_sgr(&[38, 5, i]), Some(Sgr::ChangeTextColor(text)));
        let Some(Sgr::ChangeTextColor(bright)) = try_parse_sgr(&[90 + i]) else { panic!() };
        let Some(Sgr::ChangeBackgroundColor(bright_back)) = try_parse_sgr(&[100 + i]) else {
            panic!()
        };
        assert_eq!(bright, bright_back);
        assert_eq!(bright, palette_color(8 + i));
    }
}

#[test]
fn wrapper_consume_partial_in_parts() {
    let mut source = Parser::parse("abcdefgh");
    let mut in_parts = PluginWrapper::new(Ansi::new());
    in_parts.peek_token(&mut source);
    in_parts.consume_partial(2);
    in_parts.consume_partial(3);
    let mut source = Parser::parse("abcdefgh");
    let mut at_once = PluginWrapper::new(Ansi::new());
    at_once.peek_token(&mut source);
    at_once.consume_partial(5);
    assert_eq!(in_parts.peeked_token, at_once.peeked_token);
    assert_eq!(at_once.peeked_token, Some(Token::Word("fgh")));
}

#[test]
fn palette_grays_grow_lighter() {
    assert_eq!(palette_color(232), Rgb::new(0, 0, 0));
    assert_eq!(palette_color(255), Rgb::new(255, 255, 255));
    for m in 232u8..255 {
        let a = palette_color(m);
        let b = palette_color(m + 1);
        assert!(a.r == a.g && a.g == a.b);
        assert!(a.r < b.r);
    }
}

#[test]
fn wrapper_peek_asks_the_plugin() {
    let mut source = Parser::parse("\x1b[31mred");
    let mut wrapper = PluginWrapper::new(Ansi::new());
    assert_eq!(
        wrapper.peek_token(&mut source),
        Some(Token::ChangeTextStyle(ChangeTextStyle::TextColor(Some(Rgb::new(197, 15, 31)))))
    );
    wrapper.consume_peeked_token();
    assert_eq!(wrapper.peek_token(&mut source), Some(Token::Word("red")));
}

#[test]
fn wrapper_consume_partial_counts_len_as_u32() {
    let mut source = Parser::parse("   x");
    let mut wrapper = PluginWrapper::new(Ansi::new());
    assert_eq!(wrapper.peek_token(&mut source), Some(Token::Whitespace(3, "   ")));
    // the count drops by `len as u32` (here 1); the text is skipped by `len` characters.
    wrapper.consume_partial(u32::MAX as usize + 2);
    assert_eq!(wrapper.peek_token(&mut source), Some(Token::Whitespace(2, "")));
}
