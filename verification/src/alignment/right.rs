//! Right aligned text.
use vstd::prelude::*;

use crate::alignment::space_config::UniformSpaceConfig;
use crate::alignment::LineMeasurement;

verus! {

/// Marks text to be rendered right aligned.
#[derive(Copy, Clone, Debug)]
pub struct RightAligned;

impl RightAligned {
    /// Spaces at the start of a line are not rendered.
    pub const STARTING_SPACES: bool = false;

    /// Spaces at the end of a line are not rendered.
    pub const ENDING_SPACES: bool = false;

    /// Places a line so that its content ends at `max_width`. `space_width` is the width of a
    /// space character in the text renderer.
    pub fn place_line(
        _line: &str,
        space_width: u32,
        max_width: u32,
        measurement: LineMeasurement,
    ) -> (r: (u32, UniformSpaceConfig))
        requires
            measurement.width <= max_width,
        ensures
            r.0 == max_width - measurement.width,
            r.0 + measurement.width == max_width,
            r.1.space_width == space_width,
    {
        (max_width - measurement.width, UniformSpaceConfig::new(space_width))
    }
}

} // verus!
