//! Top vertical text alignment.
use vstd::prelude::*;

use crate::alignment::vertical::VerticalTextAlignment;
use crate::alignment::Cursor;

verus! {

/// Align text to the top of the TextBox.
#[derive(Copy, Clone)]
pub struct Top;

impl VerticalTextAlignment for Top {
    open spec fn can_align(cursor_y: i32, text_height: u32, box_height: u32) -> bool {
        true
    }

    open spec fn offset(text_height: u32, box_height: u32) -> int {
        0
    }

    fn apply_vertical_alignment(_cursor: &mut Cursor, _text_height: u32, _box_height: u32) {
        // nothing to do here
    }
}

} // verus!
