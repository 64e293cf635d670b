//! Bottom vertical text alignment.
use vstd::prelude::*;

use crate::alignment::vertical::VerticalTextAlignment;
use crate::alignment::Cursor;

verus! {

/// Align text to the bottom of the TextBox.
#[derive(Copy, Clone)]
pub struct Bottom;

impl VerticalTextAlignment for Bottom {
    /// The text fits into the box, and the moved cursor stays in the coordinate range.
    open spec fn can_align(cursor_y: i32, text_height: u32, box_height: u32) -> bool {
        &&& text_height <= box_height
        &&& i32::MIN <= cursor_y + ((box_height - text_height) as u32 as i32) <= i32::MAX
    }

    /// The free space below the text, taken as an `i32`.
    open spec fn offset(text_height: u32, box_height: u32) -> int {
        (box_height - text_height) as u32 as i32 as int
    }

    fn apply_vertical_alignment(cursor: &mut Cursor, text_height: u32, box_height: u32) {
        let offset = box_height - text_height;
        cursor.y += offset as i32
    }
}

} // verus!
