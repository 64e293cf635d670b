//! Scrolling vertical text alignment.
use vstd::prelude::*;

use crate::alignment::Cursor;

verus! {

/// Align text to the TextBox so that the last lines are always displayed.
///
/// Scrolling alignment works well for terminal-like applications. When text fits into the
/// bounding box, it will be top aligned. After that, rendering switches to bottom aligned,
/// making sure the last lines are always visible.
#[derive(Copy, Clone, Debug)]
pub struct Scrolling;

/// The vertical offset of scrolling alignment: none while the text fits, otherwise the text is
/// moved up by the height that does not fit.
pub open spec fn scrolling_offset(text_height: int, box_height: int) -> int {
    if text_height > box_height {
        box_height - text_height
    } else {
        0
    }
}

impl Scrolling {
    /// Moves the cursor up by the part of the text that does not fit into the box.
    pub fn apply_vertical_alignment(cursor: &mut Cursor, text_height: i32, box_height: i32)
        requires
            text_height > box_height ==> i32::MIN <= box_height - text_height,
            i32::MIN <= old(cursor).y + scrolling_offset(text_height as int, box_height as int)
                <= i32::MAX,
        ensures
            final(cursor).y == old(cursor).y + scrolling_offset(
                text_height as int,
                box_height as int,
            ),
    {
        if text_height > box_height {
            let offset = box_height - text_height;
            cursor.y += offset
        }
    }
}

} // verus!
