//! Left aligned text.
use vstd::prelude::*;

use crate::alignment::space_config::UniformSpaceConfig;
use crate::plain_parser::Token;

verus! {

/// Marks text to be rendered left aligned.
#[derive(Copy, Clone, Debug)]
pub struct LeftAligned;

impl LeftAligned {
    /// Spaces at the start of a line are rendered.
    pub const STARTING_SPACES: bool = true;

    /// Spaces at the end of a line are rendered.
    pub const ENDING_SPACES: bool = true;

    /// Places a line: no offset, and spaces as wide as a character cell of the font
    /// (`character_width` plus `character_spacing`).
    pub fn place_line(
        character_width: u32,
        character_spacing: u32,
        _max_width: u32,
        _text_width: u32,
        _n_spaces: u32,
        _carried_token: Option<Token>,
    ) -> (r: (u32, UniformSpaceConfig))
        requires
            character_width + character_spacing <= u32::MAX,
        ensures
            r.0 == 0,
            r.1.space_width == character_width + character_spacing,
    {
        (0, UniformSpaceConfig::new(character_width + character_spacing))
    }
}

} // verus!
