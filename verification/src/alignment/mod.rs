//! Text alignment options.
use vstd::prelude::*;

pub mod bottom;
pub mod center;
pub mod justified;
pub mod left;
pub mod right;
pub mod scrolling;
pub mod space_config;
pub mod top;
pub mod vertical;

pub use bottom::BottomAligned;
pub use center::CenterAligned;
pub use justified::{Justified, JustifiedSpaceConfig};
pub use left::LeftAligned;
pub use right::RightAligned;
pub use scrolling::Scrolling;
pub use top::TopAligned;

verus! {

/// Width information of a single line of text, as measured before the line is placed.
#[derive(Copy, Clone, Debug, PartialEq, Eq)]
pub struct LineMeasurement {
    /// Maximum line width in pixels.
    pub max_line_width: u32,
    /// Width of the line content in pixels.
    pub width: u32,
    /// Number of (stretchable) space characters inside the line.
    pub space_count: u32,
    /// True if the line is the last line of a paragraph.
    pub last_line: bool,
}

impl LineMeasurement {
    /// Returns true if the line is the last line of a paragraph.
    pub fn last_line(&self) -> (r: bool)
        ensures
            r == self.last_line,
    {
        self.last_line
    }
}

/// Width of the whitespace characters of a placed line.
#[derive(Copy, Clone, Debug, PartialEq, Eq)]
pub struct SpaceConfig {
    /// Width of a single space character in pixels.
    pub space_width: u32,
    /// Number of leftover pixels that are distributed among the first spaces, one pixel each.
    pub extra_pixel_count: Option<u32>,
}

impl SpaceConfig {
    /// Creates a new space configuration.
    pub fn new(space_width: u32, extra_pixel_count: Option<u32>) -> (r: Self)
        ensures
            r.space_width == space_width,
            r.extra_pixel_count == extra_pixel_count,
    {
        SpaceConfig { space_width, extra_pixel_count }
    }
}

/// The vertical position of the text cursor.
#[derive(Copy, Clone, Debug, PartialEq, Eq)]
pub struct Cursor {
    /// Vertical position of the current line's top edge.
    pub y: i32,
}

/// Horizontal text alignment options.
#[derive(Copy, Clone, Debug, PartialEq, Eq, Hash)]
pub enum HorizontalAlignment {
    /// Left aligned.
    Left,
    /// Center aligned.
    Center,
    /// Right aligned.
    Right,
    /// Fully justified.
    Justified,
}

/// Rust's `/` on `i32`: the quotient rounded towards zero.
pub open spec fn div_toward_zero(a: int, b: int) -> int
    recommends
        b > 0,
{
    if a >= 0 {
        a / b
    } else {
        -((-a) / b)
    }
}

/// Pixels left over on a line after its content.
pub open spec fn remaining_space(m: LineMeasurement) -> int {
    m.max_line_width - m.width
}

/// True if a justified line stretches its spaces to fill the line.
pub open spec fn stretches_spaces(m: LineMeasurement) -> bool {
    !m.last_line && m.space_count != 0
}

/// The inputs on which placing a line is defined: the content fits the line, the offset fits
/// the coordinate type and the stretched space total fits in `u32`.
pub open spec fn can_place_line(
    alignment: HorizontalAlignment,
    space_width: u32,
    m: LineMeasurement,
) -> bool {
    &&& m.width <= m.max_line_width
    &&& alignment == HorizontalAlignment::Center ==> remaining_space(m) < i32::MAX
    &&& alignment == HorizontalAlignment::Right ==> remaining_space(m) <= i32::MAX
    &&& (alignment == HorizontalAlignment::Justified && stretches_spaces(m)) ==> remaining_space(m)
        + m.space_count * space_width <= u32::MAX
}

/// The horizontal offset and the space configuration of a line placed with `alignment`.
pub open spec fn placed_line(
    alignment: HorizontalAlignment,
    space_width: u32,
    m: LineMeasurement,
) -> (int, SpaceConfig) {
    let remaining = remaining_space(m);
    let uniform = SpaceConfig { space_width, extra_pixel_count: None };
    match alignment {
        HorizontalAlignment::Left => (0, uniform),
        HorizontalAlignment::Center => ((remaining + 1) / 2, uniform),
        HorizontalAlignment::Right => (remaining, uniform),
        HorizontalAlignment::Justified => if stretches_spaces(m) {
            let total = remaining + m.space_count * space_width;
            (
                0,
                SpaceConfig {
                    space_width: (total / (m.space_count as int)) as u32,
                    extra_pixel_count: Some((total % (m.space_count as int)) as u32),
                },
            )
        } else {
            (0, uniform)
        },
    }
}

impl HorizontalAlignment {
    /// Calculates the offset of a line from the left side and its whitespace information.
    ///
    /// `space_width` is the width of a single space character in the text renderer.
    pub fn place_line(self, space_width: u32, measurement: LineMeasurement) -> (r: (i32, SpaceConfig))
        requires
            can_place_line(self, space_width, measurement),
        ensures
            r.0 == placed_line(self, space_width, measurement).0,
            r.1 == placed_line(self, space_width, measurement).1,
    {
        let space_config = SpaceConfig::new(space_width, None);
        let remaining_space = measurement.max_line_width - measurement.width;
        match self {
            HorizontalAlignment::Left => (0, space_config),
            HorizontalAlignment::Center => ((remaining_space as i32 + 1) / 2, space_config),
            HorizontalAlignment::Right => (remaining_space as i32, space_config),
            HorizontalAlignment::Justified => {
                let space_count = measurement.space_count;
                let space_info = if !measurement.last_line() && space_count != 0 {
                    proof {
                        assert(space_count * space_width <= u32::MAX) by (nonlinear_arith)
                            requires
                                remaining_space + space_count * space_width <= u32::MAX,
                                remaining_space >= 0,
                        ;
                    }
                    let space = remaining_space + space_count * space_width;
                    let space_width = space / space_count;
                    let extra_pixels = space % space_count;
                    SpaceConfig::new(space_width, Some(extra_pixels))
                } else {
                    space_config
                };
                (0, space_info)
            },
        }
    }

    /// True if spaces at the start of a line are rendered.
    pub fn leading_spaces(self) -> (r: bool)
        ensures
            r == (self == HorizontalAlignment::Left),
    {
        match self {
            HorizontalAlignment::Left => true,
            HorizontalAlignment::Center => false,
            HorizontalAlignment::Right => false,
            HorizontalAlignment::Justified => false,
        }
    }

    /// True if spaces at the end of a line are rendered: never, for any alignment.
    pub fn trailing_spaces(self) -> (r: bool)
        ensures
            !r,
    {
        false
    }
}

/// Vertical text alignment options.
#[derive(Copy, Clone, Debug, PartialEq, Eq, Hash)]
pub enum VerticalAlignment {
    /// Top aligned text: the first line is rendered at the top of the text box.
    Top,
    /// Middle aligned text: the text is vertically centered within the text box.
    Middle,
    /// Bottom aligned text: the last line is aligned to the bottom of the text box.
    Bottom,
}

/// The vertical offset that `alignment` applies to the cursor.
pub open spec fn vertical_offset(alignment: VerticalAlignment, text_height: int, box_height: int) -> int {
    match alignment {
        VerticalAlignment::Top => 0,
        VerticalAlignment::Middle => div_toward_zero(box_height - text_height, 2),
        VerticalAlignment::Bottom => box_height - text_height,
    }
}

impl VerticalAlignment {
    /// Sets the cursor's initial vertical position.
    pub fn apply_vertical_alignment(self, cursor: &mut Cursor, text_height: i32, box_height: i32)
        requires
            self != VerticalAlignment::Top ==> i32::MIN <= box_height - text_height <= i32::MAX,
            i32::MIN <= old(cursor).y + vertical_offset(self, text_height as int, box_height as int)
                <= i32::MAX,
        ensures
            final(cursor).y == old(cursor).y + vertical_offset(
                self,
                text_height as int,
                box_height as int,
            ),
    {
        match self {
            VerticalAlignment::Top => {
                // nothing to do here
            },
            VerticalAlignment::Middle => {
                let offset = (box_height - text_height) / 2;
                cursor.y += offset;
            },
            VerticalAlignment::Bottom => {
                let offset = box_height - text_height;
                cursor.y += offset;
            },
        }
    }
}

/// Left aligned lines start at the left edge of the line.
pub proof fn law_left_aligned_starts_at_edge(space_width: u32, m: LineMeasurement)
    ensures
        placed_line(HorizontalAlignment::Left, space_width, m).0 == 0,
{
}

/// Right aligned lines end exactly at the right edge of the line.
pub proof fn law_right_aligned_ends_at_edge(space_width: u32, m: LineMeasurement)
    requires
        can_place_line(HorizontalAlignment::Right, space_width, m),
    ensures
        placed_line(HorizontalAlignment::Right, space_width, m).0 + m.width == m.max_line_width,
{
}

/// Center aligned lines leave the same space on both sides, up to one pixel, which goes to the
/// left side.
pub proof fn law_center_aligned_is_balanced(space_width: u32, m: LineMeasurement)
    requires
        can_place_line(HorizontalAlignment::Center, space_width, m),
    ensures
        ({
            let left = placed_line(HorizontalAlignment::Center, space_width, m).0;
            let right = m.max_line_width - m.width - left;
            left == right || left == right + 1
        }),
{
}

/// A justified line that is not the last line of its paragraph, and holds spaces, is stretched
/// to fill the whole line: its spaces together take up the leftover pixels and their natural
/// width, and the leftover pixels go one each to the first spaces.
pub proof fn law_justified_line_fills_width(space_width: u32, m: LineMeasurement)
    requires
        can_place_line(HorizontalAlignment::Justified, space_width, m),
        stretches_spaces(m),
    ensures
        ({
            let config = placed_line(HorizontalAlignment::Justified, space_width, m).1;
            &&& config.extra_pixel_count matches Some(extra)
            &&& extra < m.space_count
            &&& m.space_count * config.space_width + extra == remaining_space(m) + m.space_count
                * space_width
        }),
{
    let k = m.space_count as int;
    let total = remaining_space(m) + k * space_width;
    assert(k * (total / k) + total % k == total) by (nonlinear_arith)
        requires
            k > 0,
    ;
    assert(total / k <= total) by (nonlinear_arith)
        requires
            k > 0,
            total >= 0,
    ;
}

/// The last line of a paragraph, and a line without spaces, keep their natural space width
/// even when justified.
pub proof fn law_justified_last_line_is_not_stretched(space_width: u32, m: LineMeasurement)
    requires
        !stretches_spaces(m),
    ensures
        placed_line(HorizontalAlignment::Justified, space_width, m).1 == (SpaceConfig {
            space_width,
            extra_pixel_count: None,
        }),
{
}

/// Middle aligned text that fits into its box has the same free space above and below it, up
/// to one pixel, which goes below.
pub proof fn law_middle_aligned_is_balanced(text_height: int, box_height: int)
    requires
        0 <= text_height <= box_height,
    ensures
        ({
            let above = vertical_offset(VerticalAlignment::Middle, text_height, box_height);
            let below = box_height - text_height - above;
            below == above || below == above + 1
        }),
{
}

/// Bottom aligned text ends at the bottom edge of its box.
pub proof fn law_bottom_aligned_ends_at_edge(text_height: int, box_height: int)
    ensures
        vertical_offset(VerticalAlignment::Bottom, text_height, box_height) + text_height
            == box_height,
{
}

/// Scrolling alignment behaves as top alignment while the text fits into the box, and as
/// bottom alignment once it does not.
pub proof fn law_scrolling_is_top_or_bottom(text_height: int, box_height: int)
    ensures
        scrolling::scrolling_offset(text_height, box_height) == if text_height <= box_height {
            vertical_offset(VerticalAlignment::Top, text_height, box_height)
        } else {
            vertical_offset(VerticalAlignment::Bottom, text_height, box_height)
        },
{
}

/// Top aligned text always starts at the top edge of its box: the cursor is never moved, also
/// when the text is taller than the box (then the last lines are cut off, not the first).
pub proof fn law_top_aligned_starts_at_top(text_height: int, box_height: int)
    ensures
        vertical_offset(VerticalAlignment::Top, text_height, box_height) == 0,
{
}

/// Middle alignment moves the text by half the free space of the box, rounded toward zero,
/// also when the text does not fit: then it overhangs the box on both sides, up to one pixel
/// more at the bottom.
pub proof fn law_middle_aligned_moves_half_the_free_space(text_height: int, box_height: int)
    ensures
        ({
            let offset = vertical_offset(VerticalAlignment::Middle, text_height, box_height);
            let free = box_height - text_height;
            &&& free >= 0 ==> 0 <= free - 2 * offset <= 1
            &&& free < 0 ==> -1 <= free - 2 * offset <= 0
        }),
{
}

} // verus!
