//! Horizontal and vertical center aligned text.
use vstd::prelude::*;

use crate::alignment::space_config::UniformSpaceConfig;
use crate::alignment::{div_toward_zero, Cursor};
use crate::plain_parser::Token;

verus! {

/// Marks text to be rendered center aligned.
///
/// This alignment can be used as both horizontal or vertical alignment.
#[derive(Copy, Clone, Debug)]
pub struct CenterAligned;

impl CenterAligned {
    /// Spaces at the start of a line are not rendered.
    pub const STARTING_SPACES: bool = false;

    /// Spaces at the end of a line are not rendered.
    pub const ENDING_SPACES: bool = false;

    /// Places a line in the middle of the available width; an odd leftover pixel goes to the
    /// left side. `space_width` is the width of a space character in the text renderer.
    pub fn place_line(
        space_width: u32,
        max_width: u32,
        text_width: u32,
        _n_spaces: u32,
        _carried_token: Option<Token>,
    ) -> (r: (u32, UniformSpaceConfig))
        requires
            text_width <= max_width,
            max_width - text_width < u32::MAX,
        ensures
            r.0 == (max_width - text_width + 1) / 2,
            r.1.space_width == space_width,
    {
        ((max_width - text_width + 1) / 2, UniformSpaceConfig::new(space_width))
    }

    /// Moves the cursor so that text of `text_height` pixels is vertically centered in a box of
    /// `box_height` pixels.
    pub fn apply_vertical_alignment(cursor: &mut Cursor, text_height: i32, box_height: i32)
        requires
            i32::MIN <= box_height - text_height <= i32::MAX,
            i32::MIN <= old(cursor).y + div_toward_zero(box_height - text_height, 2) <= i32::MAX,
        ensures
            final(cursor).y == old(cursor).y + div_toward_zero(box_height - text_height, 2),
    {
        let offset = (box_height - text_height) / 2;
        cursor.y += offset;
    }
}

} // verus!
