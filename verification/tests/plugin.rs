use embedded_graphics::pixelcolor::BinaryColor;
use embedded_text::alignment::Cursor;
use embedded_text::parser::{Parser, Token};
use embedded_text::plugin::tail::Tail;
use embedded_text::plugin::{NoPlugin, Plugin, PluginWrapper, TextBoxProperties};

#[test]
fn tail_is_top_aligned_when_text_fits() {
    let mut tail = Tail;
    let mut cursor = Cursor { y: 0 };
    Plugin::<BinaryColor>::on_start_render(
        &mut tail,
        &mut cursor,
        &TextBoxProperties { box_height: 18, text_height: 9 },
    );
    assert_eq!(cursor.y, 0);
}

#[test]
fn tail_is_bottom_aligned_when_text_overflows() {
    let mut tail = Tail;
    let mut cursor = Cursor { y: 0 };
    Plugin::<BinaryColor>::on_start_render(
        &mut tail,
        &mut cursor,
        &TextBoxProperties { box_height: 18, text_height: 27 },
    );
    assert_eq!(cursor.y, -9);
}

#[test]
fn tail_saturates_the_box_height() {
    let mut tail = Tail;
    let mut cursor = Cursor { y: 0 };
    Plugin::<BinaryColor>::on_start_render(
        &mut tail,
        &mut cursor,
        &TextBoxProperties { box_height: u32::MAX, text_height: i32::MAX },
    );
    assert_eq!(cursor.y, 0);
}

#[test]
fn no_plugin_wrapper_peeks_parser_tokens() {
    let mut wrapper = PluginWrapper::new(NoPlugin::<BinaryColor>::new());
    let mut source = Parser::parse("a\tb");
    assert_eq!(wrapper.peek_token(&mut source), Some(Token::Word("a")));
    wrapper.consume_peeked_token();
    assert_eq!(wrapper.peek_token(&mut source), Some(Token::Tab));
    let mut cursor = Cursor { y: 3 };
    wrapper.on_start_render(&mut cursor, TextBoxProperties { box_height: 1, text_height: 5 });
    assert_eq!(cursor.y, 3);
    assert_eq!(wrapper.peeked_token, None);
    wrapper.new_line();
    wrapper.on_rendering_finished();
    let plugin = wrapper.into_inner();
    let _ = plugin;
}
