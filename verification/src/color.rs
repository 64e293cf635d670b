//! Colors produced by in-band styling.
use vstd::prelude::*;

verus! {

/// A 24 bit RGB color.
#[derive(Copy, Clone, Debug, PartialEq, Eq, Hash, Structural)]
pub struct Rgb {
    /// Red channel.
    pub r: u8,
    /// Green channel.
    pub g: u8,
    /// Blue channel.
    pub b: u8,
}

impl Rgb {
    /// Creates a color from its channels.
    pub fn new(r: u8, g: u8, b: u8) -> (c: Self)
        ensures
            c == (Rgb { r, g, b }),
    {
        Rgb { r, g, b }
    }
}

/// The 16 standard colors (the ones PowerShell 6 uses on Windows 10): black, red, green,
/// yellow, blue, magenta, cyan and white, then their bright variants.
pub open spec fn spec_standard_color(idx: u8) -> Rgb {
    let (r, g, b) = if idx == 0 {
        (12u8, 12u8, 12u8)
    } else if idx == 1 {
        (197u8, 15u8, 31u8)
    } else if idx == 2 {
        (19u8, 161u8, 14u8)
    } else if idx == 3 {
        (193u8, 156u8, 0u8)
    } else if idx == 4 {
        (0u8, 55u8, 218u8)
    } else if idx == 5 {
        (136u8, 23u8, 152u8)
    } else if idx == 6 {
        (58u8, 150u8, 221u8)
    } else if idx == 7 {
        (204u8, 204u8, 204u8)
    } else if idx == 8 {
        (118u8, 118u8, 118u8)
    } else if idx == 9 {
        (231u8, 72u8, 86u8)
    } else if idx == 10 {
        (22u8, 198u8, 12u8)
    } else if idx == 11 {
        (249u8, 241u8, 165u8)
    } else if idx == 12 {
        (59u8, 120u8, 255u8)
    } else if idx == 13 {
        (180u8, 0u8, 158u8)
    } else if idx == 14 {
        (97u8, 214u8, 214u8)
    } else {
        (242u8, 242u8, 242u8)
    };
    Rgb { r, g, b }
}

/// The color of a standard color code; indices above 15 give bright white.
pub fn standard_color_to_rgb(idx: u8) -> (c: Rgb)
    ensures
        c == spec_standard_color(idx),
{
    match idx {
        0 => Rgb::new(12, 12, 12),
        1 => Rgb::new(197, 15, 31),
        2 => Rgb::new(19, 161, 14),
        3 => Rgb::new(193, 156, 0),
        4 => Rgb::new(0, 55, 218),
        5 => Rgb::new(136, 23, 152),
        6 => Rgb::new(58, 150, 221),
        7 => Rgb::new(204, 204, 204),
        8 => Rgb::new(118, 118, 118),
        9 => Rgb::new(231, 72, 86),
        10 => Rgb::new(22, 198, 12),
        11 => Rgb::new(249, 241, 165),
        12 => Rgb::new(59, 120, 255),
        13 => Rgb::new(180, 0, 158),
        14 => Rgb::new(97, 214, 214),
        _ => Rgb::new(242, 242, 242),
    }
}

/// The 256 color palette: the 16 standard colors, a 6 × 6 × 6 color cube where
/// `16 + 36 × r + 6 × g + b` has the channel levels `r`, `g`, `b` (each 0 to 5, a level being
/// 51 apart), and 24 gray levels 11 apart from black, the last of which is white.
pub open spec fn spec_palette_color(color: u8) -> Rgb {
    if color <= 15 {
        spec_standard_color(color)
    } else if color <= 231 {
        let c = color - 16;
        Rgb {
            r: ((c / 36) * 51) as u8,
            g: (((c / 6) % 6) * 51) as u8,
            b: ((c % 6) * 51) as u8,
        }
    } else {
        let level = color - 232;
        let g = if level == 23 {
            255u8
        } else {
            (level * 11) as u8
        };
        Rgb { r: g, g, b: g }
    }
}

/// The color of an 8 bit color code.
pub fn palette_color(color: u8) -> (c: Rgb)
    ensures
        c == spec_palette_color(color),
{
    if color <= 15 {
        //   0-  7:  standard colors (as in ESC [ 30–37 m)
        //   8- 15:  high intensity colors (as in ESC [ 90–97 m)
        standard_color_to_rgb(color)
    } else if color <= 231 {
        //  16-231:  6 × 6 × 6 cube (216 colors): 16 + 36 × r + 6 × g + b (0 ≤ r, g, b ≤ 5)
        let color = color - 16;
        let b = (color % 6) * 51;
        let rest = color / 6;
        let g = (rest % 6) * 51;
        let rest = rest / 6;
        let r = (rest % 6) * 51;
        proof {
            assert((color / 6) / 6 == color / 36);
            assert(color / 36 < 6);
        }
        Rgb::new(r, g, b)
    } else {
        // 232-255:  grayscale from black to white in 24 steps
        let level = color - 232;
        let g = if level == 23 {
            255
        } else {
            level * 11
        };
        Rgb::new(g, g, g)
    }
}

/// Colors 232 to 255 of the palette are grays, from black to white, strictly lighter as the
/// color index grows.
pub proof fn law_palette_grays_grow_lighter(m: u8, n: u8)
    requires
        232 <= m < n,
    ensures
        spec_palette_color(m).r == spec_palette_color(m).g == spec_palette_color(m).b,
        spec_palette_color(n).r == spec_palette_color(n).g == spec_palette_color(n).b,
        spec_palette_color(m).r < spec_palette_color(n).r,
        spec_palette_color(232) == (Rgb { r: 0, g: 0, b: 0 }),
        spec_palette_color(255) == (Rgb { r: 255, g: 255, b: 255 }),
{
    assert((m - 232) * 11 < (n - 232) * 11) by (nonlinear_arith)
        requires
            m < n,
    ;
    assert((n - 232) * 11 <= 253) by (nonlinear_arith)
        requires
            n <= 255,
            232 <= n,
    ;
}

/// The standard colors are the PowerShell 6 colors of the documented color table: black, red,
/// green, yellow, blue, magenta, cyan, white, then gray and the bright red, green, yellow,
/// blue, magenta, cyan and white; every index above 15 is bright white.
pub proof fn law_standard_color_table()
    ensures
        spec_standard_color(0) == (Rgb { r: 12, g: 12, b: 12 }),
        spec_standard_color(1) == (Rgb { r: 197, g: 15, b: 31 }),
        spec_standard_color(2) == (Rgb { r: 19, g: 161, b: 14 }),
        spec_standard_color(3) == (Rgb { r: 193, g: 156, b: 0 }),
        spec_standard_color(4) == (Rgb { r: 0, g: 55, b: 218 }),
        spec_standard_color(5) == (Rgb { r: 136, g: 23, b: 152 }),
        spec_standard_color(6) == (Rgb { r: 58, g: 150, b: 221 }),
        spec_standard_color(7) == (Rgb { r: 204, g: 204, b: 204 }),
        spec_standard_color(8) == (Rgb { r: 118, g: 118, b: 118 }),
        spec_standard_color(9) == (Rgb { r: 231, g: 72, b: 86 }),
        spec_standard_color(10) == (Rgb { r: 22, g: 198, b: 12 }),
        spec_standard_color(11) == (Rgb { r: 249, g: 241, b: 165 }),
        spec_standard_color(12) == (Rgb { r: 59, g: 120, b: 255 }),
        spec_standard_color(13) == (Rgb { r: 180, g: 0, b: 158 }),
        spec_standard_color(14) == (Rgb { r: 97, g: 214, b: 214 }),
        forall|i: u8| 15 <= i ==> #[trigger] spec_standard_color(i) == (Rgb { r: 242, g: 242, b: 242 }),
        forall|i: u8, j: u8| i < j < 16 ==> #[trigger] spec_standard_color(i) != #[trigger] spec_standard_color(j),
{
}

/// Colors 16 to 231 of the palette form the 6 × 6 × 6 color cube: color
/// `16 + 36 × r + 6 × g + b` has the channel levels `r`, `g` and `b` (each 0 to 5), a level
/// being 51 apart, from 0 to 255. Colors 0 to 15 are the standard colors.
pub proof fn law_palette_color_cube(r: u8, g: u8, b: u8)
    requires
        r <= 5,
        g <= 5,
        b <= 5,
    ensures
        spec_palette_color((16 + 36 * r + 6 * g + b) as u8) == (Rgb {
            r: (51 * r) as u8,
            g: (51 * g) as u8,
            b: (51 * b) as u8,
        }),
        forall|i: u8| i < 16 ==> #[trigger] spec_palette_color(i) == spec_standard_color(i),
{
    let c: int = 36 * r + 6 * g + b;
    assert(c / 36 == r && (c / 6) % 6 == g && c % 6 == b) by (nonlinear_arith)
        requires
            c == 36 * r + 6 * g + b,
            r <= 5,
            g <= 5,
            b <= 5,
            0 <= r,
            0 <= g,
            0 <= b,
    ;
}

} // verus!
