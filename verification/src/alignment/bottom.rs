//! Bottom vertical text alignment.
use vstd::prelude::*;

use crate::alignment::Cursor;

verus! {

/// Align text to the bottom of the TextBox.
#[derive(Copy, Clone, Debug)]
pub struct BottomAligned;

impl BottomAligned {
    /// Moves the cursor so that the last line of text of `text_height` pixels ends at the
    /// bottom of a box of `box_height` pixels.
    pub fn apply_vertical_alignment(cursor: &mut Cursor, text_height: i32, box_height: i32)
        requires
            i32::MIN <= box_height - text_height <= i32::MAX,
            i32::MIN <= old(cursor).y + (box_height - text_height) <= i32::MAX,
        ensures
            final(cursor).y == old(cursor).y + (box_height - text_height),
    {
        let offset = box_height - text_height;
        cursor.y += offset
    }
}

} // verus!
