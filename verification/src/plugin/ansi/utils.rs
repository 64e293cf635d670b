//! Select Graphic Rendition (SGR) parameters of ANSI escape sequences.
use vstd::prelude::*;

use crate::color::{palette_color, spec_palette_color, spec_standard_color, standard_color_to_rgb, Rgb};
use crate::parser::{ChangeTextStyle, DecorationColor};

verus! {

/// A supported SGR command.
#[derive(Copy, Clone, Debug, PartialEq, Eq, Structural)]
pub enum Sgr {
    /// Reset everything (`0`).
    Reset,
    /// Underlined text (`4`).
    Underline,
    /// Turn off text underline (`24`).
    UnderlineOff,
    /// Crossed out text (`9`).
    CrossedOut,
    /// Turn off strikethrough (`29`).
    NotCrossedOut,
    /// Change the text color.
    ChangeTextColor(Rgb),
    /// Reset the text color (`39`).
    DefaultTextColor,
    /// Change the background color.
    ChangeBackgroundColor(Rgb),
    /// Reset the background color (`49`).
    DefaultBackgroundColor,
}

/// The color that the parameters after `38` or `48` select: `5;<n>` is color `n` of the 256
/// color palette, `2;<r>;<g>;<b>` is a 24 bit color.
pub open spec fn spec_sgr_color(v: Seq<u8>) -> Option<Rgb> {
    if v.len() >= 2 && v[0] == 5 {
        Some(spec_palette_color(v[1]))
    } else if v.len() >= 4 && v[0] == 2 {
        Some(Rgb { r: v[1], g: v[2], b: v[3] })
    } else {
        None
    }
}

/// The SGR command that the parameters `v` of a `\x1b[...m` sequence select.
pub open spec fn spec_sgr(v: Seq<u8>) -> Option<Sgr> {
    if v.len() == 0 {
        None
    } else {
        let code = v[0];
        if code == 0 {
            Some(Sgr::Reset)
        } else if code == 4 {
            Some(Sgr::Underline)
        } else if code == 9 {
            Some(Sgr::CrossedOut)
        } else if code == 24 {
            Some(Sgr::UnderlineOff)
        } else if code == 29 {
            Some(Sgr::NotCrossedOut)
        } else if 30 <= code <= 37 {
            Some(Sgr::ChangeTextColor(spec_standard_color((code - 30) as u8)))
        } else if code == 38 {
            match spec_sgr_color(v.drop_first()) {
                Some(c) => Some(Sgr::ChangeTextColor(c)),
                None => None,
            }
        } else if code == 39 {
            Some(Sgr::DefaultTextColor)
        } else if 40 <= code <= 47 {
            Some(Sgr::ChangeBackgroundColor(spec_standard_color((code - 40) as u8)))
        } else if code == 48 {
            match spec_sgr_color(v.drop_first()) {
                Some(c) => Some(Sgr::ChangeBackgroundColor(c)),
                None => None,
            }
        } else if code == 49 {
            Some(Sgr::DefaultBackgroundColor)
        } else if 90 <= code <= 97 {
            Some(Sgr::ChangeTextColor(spec_standard_color((code - 82) as u8)))
        } else if 100 <= code <= 107 {
            Some(Sgr::ChangeBackgroundColor(spec_standard_color((code - 92) as u8)))
        } else {
            None
        }
    }
}

/// Parses the color selected by the parameters `v[start..]`.
fn try_parse_color(v: &[u8], start: usize) -> (r: Option<Rgb>)
    requires
        start <= v@.len(),
    ensures
        r == spec_sgr_color(v@.skip(start as int)),
{
    let ghost rest = v@.skip(start as int);
    if v.len() - start >= 2 && v[start] == 5 {
        assert(rest[1] == v@[start + 1]);
        Some(palette_color(v[start + 1]))
    } else if v.len() - start >= 4 && v[start] == 2 {
        assert(rest[1] == v@[start + 1] && rest[2] == v@[start + 2] && rest[3] == v@[start + 3]);
        Some(Rgb::new(v[start + 1], v[start + 2], v[start + 3]))
    } else {
        None
    }
}

/// Parses the parameters of a `\x1b[...m` sequence into a supported SGR command.
pub fn try_parse_sgr(v: &[u8]) -> (r: Option<Sgr>)
    ensures
        r == spec_sgr(v@),
{
    if v.len() == 0 {
        return None;
    }
    let code = v[0];
    assert(v@.drop_first() =~= v@.skip(1));
    match code {
        0 => Some(Sgr::Reset),
        4 => Some(Sgr::Underline),
        9 => Some(Sgr::CrossedOut),
        24 => Some(Sgr::UnderlineOff),
        29 => Some(Sgr::NotCrossedOut),
        30..=37 => Some(Sgr::ChangeTextColor(standard_color_to_rgb(code - 30))),
        38 => match try_parse_color(v, 1) {
            Some(c) => Some(Sgr::ChangeTextColor(c)),
            None => None,
        },
        39 => Some(Sgr::DefaultTextColor),
        40..=47 => Some(Sgr::ChangeBackgroundColor(standard_color_to_rgb(code - 40))),
        48 => match try_parse_color(v, 1) {
            Some(c) => Some(Sgr::ChangeBackgroundColor(c)),
            None => None,
        },
        49 => Some(Sgr::DefaultBackgroundColor),
        90..=97 => Some(Sgr::ChangeTextColor(standard_color_to_rgb(code - 82))),
        100..=107 => Some(Sgr::ChangeBackgroundColor(standard_color_to_rgb(code - 92))),
        _ => None,
    }
}

/// Text and background color codes select the same colors: `30`-`37` and `40`-`47` the
/// standard colors, `90`-`97` and `100`-`107` their bright variants, which are colors 8 to 15
/// of the 256 color palette, as `38;5;<n>` and `48;5;<n>` select them.
pub proof fn law_sgr_color_codes_agree(i: u8)
    requires
        i < 8,
    ensures
        spec_sgr(seq![(30 + i) as u8]) == Some(Sgr::ChangeTextColor(spec_standard_color(i))),
        spec_sgr(seq![(40 + i) as u8]) == Some(Sgr::ChangeBackgroundColor(spec_standard_color(i))),
        spec_sgr(seq![(90 + i) as u8]) == Some(
            Sgr::ChangeTextColor(spec_palette_color((8 + i) as u8)),
        ),
        spec_sgr(seq![(100 + i) as u8]) == Some(
            Sgr::ChangeBackgroundColor(spec_palette_color((8 + i) as u8)),
        ),
        spec_sgr(seq![38u8, 5u8, i]) == Some(Sgr::ChangeTextColor(spec_standard_color(i))),
        spec_sgr(seq![48u8, 5u8, i]) == Some(Sgr::ChangeBackgroundColor(spec_standard_color(i))),
{
    assert(seq![38u8, 5u8, i].drop_first() =~= seq![5u8, i]);
    assert(seq![48u8, 5u8, i].drop_first() =~= seq![5u8, i]);
}

/// The text style change of an SGR command.
pub open spec fn spec_sgr_style(sgr: Sgr) -> ChangeTextStyle<Rgb> {
    match sgr {
        Sgr::Reset => ChangeTextStyle::Reset,
        Sgr::ChangeTextColor(color) => ChangeTextStyle::TextColor(Some(color)),
        Sgr::DefaultTextColor => ChangeTextStyle::TextColor(None),
        Sgr::ChangeBackgroundColor(color) => ChangeTextStyle::BackgroundColor(Some(color)),
        Sgr::DefaultBackgroundColor => ChangeTextStyle::BackgroundColor(None),
        Sgr::Underline => ChangeTextStyle::Underline(DecorationColor::TextColor),
        Sgr::UnderlineOff => ChangeTextStyle::Underline(DecorationColor::NoDecoration),
        Sgr::CrossedOut => ChangeTextStyle::Strikethrough(DecorationColor::TextColor),
        Sgr::NotCrossedOut => ChangeTextStyle::Strikethrough(DecorationColor::NoDecoration),
    }
}

impl From<Sgr> for ChangeTextStyle<Rgb> {
    fn from(sgr: Sgr) -> (r: Self) {
        match sgr {
            Sgr::Reset => ChangeTextStyle::Reset,
            Sgr::ChangeTextColor(color) => ChangeTextStyle::TextColor(Some(color)),
            Sgr::DefaultTextColor => ChangeTextStyle::TextColor(None),
            Sgr::ChangeBackgroundColor(color) => ChangeTextStyle::BackgroundColor(Some(color)),
            Sgr::DefaultBackgroundColor => ChangeTextStyle::BackgroundColor(None),
            Sgr::Underline => ChangeTextStyle::Underline(DecorationColor::TextColor),
            Sgr::UnderlineOff => ChangeTextStyle::Underline(DecorationColor::NoDecoration),
            Sgr::CrossedOut => ChangeTextStyle::Strikethrough(DecorationColor::TextColor),
            Sgr::NotCrossedOut => ChangeTextStyle::Strikethrough(DecorationColor::NoDecoration),
        }
    }
}

impl vstd::std_specs::convert::FromSpecImpl<Sgr> for ChangeTextStyle<Rgb> {
    open spec fn obeys_from_spec() -> bool {
        true
    }

    open spec fn from_spec(sgr: Sgr) -> ChangeTextStyle<Rgb> {
        spec_sgr_style(sgr)
    }
}

} // verus!
