use embedded_text::alignment::vertical::{Bottom, Top, VerticalTextAlignment};
use embedded_text::alignment::{
    BottomAligned, CenterAligned, Cursor, HorizontalAlignment, Justified, JustifiedSpaceConfig,
    LeftAligned, LineMeasurement, RightAligned, Scrolling, SpaceConfig, TopAligned,
    VerticalAlignment,
};

fn measurement(max_line_width: u32, width: u32, space_count: u32, last_line: bool) -> LineMeasurement {
    LineMeasurement { max_line_width, width, space_count, last_line }
}

#[test]
fn place_line_left_right_center() {
    let m = measurement(55, 24, 0, true);
    assert_eq!(HorizontalAlignment::Left.place_line(6, m), (0, SpaceConfig::new(6, None)));
    assert_eq!(HorizontalAlignment::Right.place_line(6, m), (31, SpaceConfig::new(6, None)));
    // 31 leftover pixels: the odd pixel goes to the left side
    assert_eq!(HorizontalAlignment::Center.place_line(6, m), (16, SpaceConfig::new(6, None)));
    let even = measurement(54, 24, 0, true);
    assert_eq!(HorizontalAlignment::Center.place_line(6, even).0, 15);
}

#[test]
fn place_line_justified_stretches_spaces() {
    // 3 spaces of 6 pixels, 10 leftover pixels: 28 pixels of space, 9 each and 1 extra pixel
    let m = measurement(60, 50, 3, false);
    let (offset, config) = HorizontalAlignment::Justified.place_line(6, m);
    assert_eq!(offset, 0);
    assert_eq!(config, SpaceConfig::new(9, Some(1)));
    assert_eq!(3 * config.space_width + config.extra_pixel_count.unwrap(), 10 + 3 * 6);
}

#[test]
fn place_line_justified_keeps_last_line() {
    let m = measurement(60, 50, 3, true);
    assert_eq!(HorizontalAlignment::Justified.place_line(6, m), (0, SpaceConfig::new(6, None)));
    let no_spaces = measurement(60, 50, 0, false);
    assert_eq!(
        HorizontalAlignment::Justified.place_line(6, no_spaces),
        (0, SpaceConfig::new(6, None))
    );
}

#[test]
fn leading_and_trailing_spaces() {
    assert!(HorizontalAlignment::Left.leading_spaces());
    assert!(!HorizontalAlignment::Center.leading_spaces());
    assert!(!HorizontalAlignment::Right.leading_spaces());
    assert!(!HorizontalAlignment::Justified.leading_spaces());
    for a in [
        HorizontalAlignment::Left,
        HorizontalAlignment::Center,
        HorizontalAlignment::Right,
        HorizontalAlignment::Justified,
    ] {
        assert!(!a.trailing_spaces());
    }
}

#[test]
fn vertical_alignment_offsets() {
    let mut cursor = Cursor { y: 0 };
    VerticalAlignment::Top.apply_vertical_alignment(&mut cursor, 9, 18);
    assert_eq!(cursor.y, 0);
    VerticalAlignment::Middle.apply_vertical_alignment(&mut cursor, 9, 18);
    assert_eq!(cursor.y, 4);
    let mut cursor = Cursor { y: 2 };
    VerticalAlignment::Bottom.apply_vertical_alignment(&mut cursor, 9, 18);
    assert_eq!(cursor.y, 11);
    // text taller than the box: the quotient is rounded towards zero
    let mut cursor = Cursor { y: 0 };
    VerticalAlignment::Middle.apply_vertical_alignment(&mut cursor, 27, 18);
    assert_eq!(cursor.y, -4);
}

#[test]
fn vertical_alignment_markers() {
    let mut cursor = Cursor { y: 0 };
    TopAligned::apply_vertical_alignment(&mut cursor, 9, 18);
    assert_eq!(cursor.y, 0);
    BottomAligned::apply_vertical_alignment(&mut cursor, 9, 18);
    assert_eq!(cursor.y, 9);
    let mut cursor = Cursor { y: 0 };
    CenterAligned::apply_vertical_alignment(&mut cursor, 9, 18);
    assert_eq!(cursor.y, 4);
}

#[test]
fn scrolling_behaves_as_top_then_bottom() {
    let mut cursor = Cursor { y: 0 };
    Scrolling::apply_vertical_alignment(&mut cursor, 9, 18);
    assert_eq!(cursor.y, 0);
    Scrolling::apply_vertical_alignment(&mut cursor, 27, 18);
    assert_eq!(cursor.y, -9);
}

#[test]
fn vertical_text_alignment_trait() {
    let mut cursor = Cursor { y: 1 };
    Top::apply_vertical_alignment(&mut cursor, 9, 18);
    assert_eq!(cursor.y, 1);
    Bottom::apply_vertical_alignment(&mut cursor, 9, 18);
    assert_eq!(cursor.y, 10);
}

#[test]
fn marker_place_line() {
    assert_eq!(LeftAligned::place_line(6, 1, 55, 24, 0, None).0, 0);
    assert_eq!(LeftAligned::place_line(6, 1, 55, 24, 0, None).1.space_width, 7);
    let m = measurement(55, 24, 0, false);
    assert_eq!(RightAligned::place_line("word", 6, 55, m).0, 31);
    assert_eq!(CenterAligned::place_line(6, 55, 24, 0, None).0, 16);
    assert_eq!(CenterAligned::place_line(6, 54, 24, 0, None).1.space_width, 6);
    assert!(LeftAligned::STARTING_SPACES && LeftAligned::ENDING_SPACES);
    assert!(!RightAligned::STARTING_SPACES && !CenterAligned::ENDING_SPACES);
    assert!(!Justified::STARTING_SPACES && !Justified::ENDING_SPACES);
}

#[test]
fn justified_place_line_counts_interior_spaces() {
    // "  word and other word  ": 3 interior spaces; leading and trailing ones are not stretched
    let m = measurement(60, 50, 0, false);
    let (offset, config) = Justified::place_line("  word and  other  ", 6, m);
    assert_eq!(offset, 0);
    // 3 interior spaces (the double space counts twice): 10 + 18 = 28 = 3 * 9 + 1
    assert_eq!(config.peek_next_width(1), 10);
    assert_eq!(config.peek_next_width(3), 28);
    let (_, last) = Justified::place_line("a b", 6, measurement(60, 18, 0, true));
    assert_eq!(last.peek_next_width(1), 6);
    let (_, spaces_only) = Justified::place_line("   ", 6, measurement(60, 18, 0, false));
    assert_eq!(spaces_only.peek_next_width(2), 12);
    // the non-breaking space is stretched too
    let (_, nbsp) = Justified::place_line("a\u{a0}b", 6, measurement(20, 18, 0, false));
    assert_eq!(nbsp.peek_next_width(1), 8);
}

#[test]
fn justified_space_config_consume() {
    let mut config = JustifiedSpaceConfig::new(9, 2);
    assert_eq!(config.peek_next_width(1), 10);
    assert_eq!(config.consume(1), 10);
    assert_eq!(config.consume(3), 28);
    assert_eq!(config.consume(2), 18);
    // consuming in one step gives the same total as consuming in steps
    let mut whole = JustifiedSpaceConfig::new(9, 2);
    assert_eq!(whole.consume(6), 10 + 28 + 18);
}
