//! Width of whitespace characters on a line where every space is equally wide.
use vstd::prelude::*;

verus! {

/// Space configuration where every space character has the same width.
#[derive(Copy, Clone, Debug, PartialEq, Eq)]
pub struct UniformSpaceConfig {
    /// The width of a space character in pixels.
    pub space_width: u32,
}

impl UniformSpaceConfig {
    /// Creates a space configuration with the given space width.
    pub fn new(space_width: u32) -> (r: Self)
        ensures
            r.space_width == space_width,
    {
        UniformSpaceConfig { space_width }
    }
}

} // verus!
