//! Vertical text alignment options.
use vstd::prelude::*;

use crate::alignment::Cursor;

pub mod bottom;
pub mod top;

pub use bottom::Bottom;
pub use top::Top;

verus! {

/// Vertical text alignment base trait.
pub trait VerticalTextAlignment: Copy {
    /// The inputs on which the alignment is defined.
    spec fn can_align(cursor_y: i32, text_height: u32, box_height: u32) -> bool;

    /// The vertical offset that the alignment applies to the cursor.
    spec fn offset(text_height: u32, box_height: u32) -> int;

    /// Sets the cursor's initial vertical position, for text of `text_height` pixels in a box
    /// of `box_height` pixels.
    fn apply_vertical_alignment(cursor: &mut Cursor, text_height: u32, box_height: u32)
        requires
            Self::can_align(old(cursor).y, text_height, box_height),
        ensures
            final(cursor).y == old(cursor).y + Self::offset(text_height, box_height),
    ;
}

/// Top alignment never moves the cursor; bottom alignment moves text that fits into the box
/// (and whose free space fits an `i32`) down so that it ends at the bottom edge of the box.
pub proof fn law_vertical_text_alignments(text_height: u32, box_height: u32)
    ensures
        <Top as VerticalTextAlignment>::offset(text_height, box_height) == 0,
        text_height <= box_height && box_height - text_height <= i32::MAX ==> <Bottom as VerticalTextAlignment>::offset(
            text_height,
            box_height,
        ) + text_height == box_height,
{
}

} // verus!
