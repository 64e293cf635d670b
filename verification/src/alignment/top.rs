//! Top vertical text alignment.
use vstd::prelude::*;

use crate::alignment::Cursor;

verus! {

/// Align text to the top of the TextBox.
#[derive(Copy, Clone, Debug)]
pub struct TopAligned;

impl TopAligned {
    /// Leaves the cursor where it is: the first line starts at the top of the box.
    pub fn apply_vertical_alignment(_cursor: &mut Cursor, _text_height: i32, _box_height: i32)
        ensures
            *final(_cursor) == *old(_cursor),
    {
        // nothing to do here
    }
}

} // verus!
