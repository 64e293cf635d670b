use embedded_text::color::{palette_color, standard_color_to_rgb, Rgb};
use embedded_text::parser::ansi::{try_parse_escape_seq, EscapeToken};

fn parse(text: &str) -> (Option<EscapeToken>, &str) {
    let mut rest = text;
    let token = try_parse_escape_seq(&mut rest);
    (token, rest)
}

#[test]
fn escape_of_escape() {
    assert_eq!(parse("\x1brest"), (Some(EscapeToken::Escape), "rest"));
}

#[test]
fn standard_colors() {
    assert_eq!(
        parse("[31mtext"),
        (Some(EscapeToken::SetForeground(Rgb::new(197, 15, 31))), "text")
    );
    assert_eq!(
        parse("[97m"),
        (Some(EscapeToken::SetForeground(Rgb::new(242, 242, 242))), "")
    );
    assert_eq!(
        parse("[44mx"),
        (Some(EscapeToken::SetBackground(Rgb::new(0, 55, 218))), "x")
    );
    assert_eq!(
        parse("[100mx"),
        (Some(EscapeToken::SetBackground(Rgb::new(118, 118, 118))), "x")
    );
}

#[test]
fn palette_and_rgb_colors() {
    assert_eq!(
        parse("[38;5;12m"),
        (Some(EscapeToken::SetForeground(Rgb::new(59, 120, 255))), "")
    );
    assert_eq!(
        parse("[48;5;196mz"),
        (Some(EscapeToken::SetBackground(Rgb::new(255, 0, 0))), "z")
    );
    assert_eq!(
        parse("[38;2;1;22;255mz"),
        (Some(EscapeToken::SetForeground(Rgb::new(1, 22, 255))), "z")
    );
}

#[test]
fn unsupported_or_broken_sequences_leave_text_unchanged() {
    assert_eq!(parse("[1mx"), (None, "[1mx"));
    assert_eq!(parse("[31x"), (None, "[31x"));
    assert_eq!(parse("[38;7;1m"), (None, "[38;7;1m"));
    assert_eq!(parse("[38;2;1;2m"), (None, "[38;2;1;2m"));
    assert_eq!(parse("x"), (None, "x"));
    assert_eq!(parse(""), (None, ""));
}

#[test]
fn colors_of_the_palette() {
    assert_eq!(palette_color(0), standard_color_to_rgb(0));
    assert_eq!(palette_color(15), Rgb::new(242, 242, 242));
    assert_eq!(palette_color(16), Rgb::new(0, 0, 0));
    assert_eq!(palette_color(16 + 36 * 5 + 6 * 2 + 1), Rgb::new(255, 102, 51));
    assert_eq!(palette_color(232), Rgb::new(0, 0, 0));
    assert_eq!(palette_color(254), Rgb::new(242, 242, 242));
    assert_eq!(palette_color(255), Rgb::new(255, 255, 255));
    assert_eq!(standard_color_to_rgb(200), Rgb::new(242, 242, 242));
}
