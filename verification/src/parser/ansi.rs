//! Parse ANSI escape sequences that change the text and background colors.
use vstd::prelude::*;

use crate::color::{palette_color, spec_palette_color, spec_standard_color, standard_color_to_rgb, Rgb};
use crate::parser::chars::SPEC_CHAR_ESCAPE;

verus! {

/// A token of an ANSI escape sequence.
#[derive(Copy, Clone, Debug, PartialEq, Eq, Structural)]
pub enum EscapeToken {
    /// An escaped escape character.
    Escape,
    /// Change the text color.
    SetForeground(Rgb),
    /// Change the background color.
    SetBackground(Rgb),
}

/// True for the decimal digits.
pub open spec fn is_digit(c: char) -> bool {
    '0' <= c <= '9'
}

/// The value of a decimal digit.
pub open spec fn digit_value(c: char) -> int {
    c as int - '0' as int
}

/// The decimal number of at most three digits at the start of `s`, and the number of digits;
/// `None` if `s` does not start with a digit.
pub open spec fn spec_number(s: Seq<char>) -> Option<(int, int)> {
    if s.len() >= 1 && is_digit(s[0]) {
        if s.len() >= 2 && is_digit(s[1]) {
            if s.len() >= 3 && is_digit(s[2]) {
                Some((100 * digit_value(s[0]) + 10 * digit_value(s[1]) + digit_value(s[2]), 3))
            } else {
                Some((10 * digit_value(s[0]) + digit_value(s[1]), 2))
            }
        } else {
            Some((digit_value(s[0]), 1))
        }
    } else {
        None
    }
}

/// The number at the start of `s` is not larger than a `u8` holds.
pub open spec fn number_fits(s: Seq<char>) -> bool {
    spec_number(s) matches Some((v, _)) ==> v <= 255
}

/// True if `s` continues with `c` at position `i`.
pub open spec fn char_at(s: Seq<char>, i: int, c: char) -> bool {
    0 <= i < s.len() && s[i] == c
}

/// The 24 bit color `<r>;<g>;<b>` at the start of `s`, and the number of characters it spans.
#[verifier::opaque]
pub open spec fn spec_rgb(s: Seq<char>) -> Option<(Rgb, int)> {
    match spec_number(s) {
        None => None,
        Some((r, n1)) => if char_at(s, n1 as int, ';') {
            let p1 = n1 + 1;
            match spec_number(s.skip(p1 as int)) {
                None => None,
                Some((g, n2)) => if char_at(s, p1 + n2, ';') {
                    let p2 = p1 + n2 + 1;
                    match spec_number(s.skip(p2 as int)) {
                        None => None,
                        Some((b, n3)) => Some((Rgb { r: r as u8, g: g as u8, b: b as u8 }, p2 + n3)),
                    }
                } else {
                    None
                },
            }
        } else {
            None
        },
    }
}

/// The numbers of a 24 bit color fit into a `u8`, as far as they are read.
#[verifier::opaque]
pub open spec fn rgb_fits(s: Seq<char>) -> bool {
    &&& number_fits(s)
    &&& match spec_number(s) {
        Some((_, n1)) => char_at(s, n1 as int, ';') ==> {
            let p1 = n1 + 1;
            &&& number_fits(s.skip(p1 as int))
            &&& match spec_number(s.skip(p1 as int)) {
                Some((_, n2)) => char_at(s, p1 + n2, ';') ==> number_fits(s.skip(p1 + n2 + 1)),
                None => true,
            }
        },
        None => true,
    }
}

/// The color `5;<n>` (color `n` of the 256 color palette) or `2;<r>;<g>;<b>` (a 24 bit color)
/// at the start of `s`, and the number of characters it spans.
#[verifier::opaque]
pub open spec fn spec_color(s: Seq<char>) -> Option<(Rgb, int)> {
    match spec_number(s) {
        None => None,
        Some((kind, n)) => if char_at(s, n as int, ';') {
            let rest = s.skip(n + 1);
            if kind == 5 {
                match spec_number(rest) {
                    Some((c, m)) => Some((spec_palette_color(c as u8), n + 1 + m)),
                    None => None,
                }
            } else if kind == 2 {
                match spec_rgb(rest) {
                    Some((c, m)) => Some((c, n + 1 + m)),
                    None => None,
                }
            } else {
                None
            }
        } else {
            None
        },
    }
}

/// The numbers of a color fit into a `u8`, as far as they are read.
#[verifier::opaque]
pub open spec fn color_fits(s: Seq<char>) -> bool {
    &&& number_fits(s)
    &&& match spec_number(s) {
        Some((kind, n)) => char_at(s, n as int, ';') ==> {
            &&& kind == 5 ==> number_fits(s.skip(n + 1))
            &&& kind == 2 ==> rgb_fits(s.skip(n + 1))
        },
        None => true,
    }
}

/// The token of the SGR color code `code`, and the number of characters after the code that
/// it spans, where `rest` is the text after the code: standard colors 30-37, 90-97 (text) and
/// 40-47, 100-107 (background), and `38`/`48` followed by `;` and a color. `None` for an
/// unsupported code or an invalid color.
pub open spec fn spec_sgr_token(rest: Seq<char>, code: int) -> Option<(EscapeToken, int)> {
    if 30 <= code <= 37 {
        Some((EscapeToken::SetForeground(spec_standard_color((code - 30) as u8)), 0))
    } else if code == 38 {
        if char_at(rest, 0, ';') {
            match spec_color(rest.skip(1)) {
                Some((c, m)) => Some((EscapeToken::SetForeground(c), m + 1)),
                None => None,
            }
        } else {
            None
        }
    } else if 90 <= code <= 97 {
        Some((EscapeToken::SetForeground(spec_standard_color((code - 82) as u8)), 0))
    } else if 40 <= code <= 47 {
        Some((EscapeToken::SetBackground(spec_standard_color((code - 40) as u8)), 0))
    } else if code == 48 {
        if char_at(rest, 0, ';') {
            match spec_color(rest.skip(1)) {
                Some((c, m)) => Some((EscapeToken::SetBackground(c), m + 1)),
                None => None,
            }
        } else {
            None
        }
    } else if 100 <= code <= 107 {
        Some((EscapeToken::SetBackground(spec_standard_color((code - 92) as u8)), 0))
    } else {
        None
    }
}

/// The escape sequence at the start of `s` (the text after an escape character) and the
/// number of characters it spans: a second escape character, or `[`, an SGR color code and
/// `m`. Only a single attribute is supported at a time.
pub open spec fn spec_escape_seq(s: Seq<char>) -> Option<(EscapeToken, int)> {
    if s.len() == 0 {
        None
    } else if s[0] == SPEC_CHAR_ESCAPE {
        Some((EscapeToken::Escape, 1))
    } else if s[0] == '[' {
        match spec_number(s.skip(1)) {
            None => None,
            Some((code, n)) => match spec_sgr_token(s.skip(1 + n), code) {
                Some((t, m)) => if char_at(s, 1 + n + m, 'm') {
                    Some((t, 1 + n + m + 1))
                } else {
                    None
                },
                None => None,
            },
        }
    } else {
        None
    }
}

/// The numbers of an escape sequence fit into a `u8`, as far as they are read.
pub open spec fn escape_seq_fits(s: Seq<char>) -> bool {
    s.len() > 0 && s[0] == '[' ==> {
        &&& number_fits(s.skip(1))
        &&& match spec_number(s.skip(1)) {
            Some((code, n)) => (code == 38 || code == 48) && char_at(s, 1 + n, ';') ==> color_fits(
                s.skip(1 + n + 1),
            ),
            None => true,
        }
    }
}

/// An escaped escape character and a single-attribute SGR sequence with a standard color code
/// select what the documentation's color table lists, whatever text follows: `3<d>m` sets the
/// text color and `4<d>m` the background color to standard color `d`, `9<d>m` and `10<d>m` to
/// its bright variant (color `d + 8`), for `d` from 0 to 7; each sequence spans exactly its
/// own characters.
pub proof fn law_escape_seq_standard_colors(d: char, rest: Seq<char>)
    requires
        is_digit(d),
        digit_value(d) <= 7,
    ensures
        spec_escape_seq(seq![SPEC_CHAR_ESCAPE] + rest) == Some((EscapeToken::Escape, 1int)),
        spec_escape_seq(seq!['[', '3', d, 'm'] + rest) == Some(
            (EscapeToken::SetForeground(spec_standard_color(digit_value(d) as u8)), 4int),
        ),
        spec_escape_seq(seq!['[', '4', d, 'm'] + rest) == Some(
            (EscapeToken::SetBackground(spec_standard_color(digit_value(d) as u8)), 4int),
        ),
        spec_escape_seq(seq!['[', '9', d, 'm'] + rest) == Some(
            (EscapeToken::SetForeground(spec_standard_color((digit_value(d) + 8) as u8)), 4int),
        ),
        spec_escape_seq(seq!['[', '1', '0', d, 'm'] + rest) == Some(
            (EscapeToken::SetBackground(spec_standard_color((digit_value(d) + 8) as u8)), 5int),
        ),
{
    assert((seq![SPEC_CHAR_ESCAPE] + rest)[0] == SPEC_CHAR_ESCAPE);
    lemma_two_digit_sequence('3', d, rest);
    lemma_two_digit_sequence('4', d, rest);
    lemma_two_digit_sequence('9', d, rest);
    let s = seq!['[', '1', '0', d, 'm'] + rest;
    assert(s[0] == '[' && s[1] == '1' && s[2] == '0' && s[3] == d && s[4] == 'm');
    assert(s.skip(1)[0] == '1' && s.skip(1)[1] == '0' && s.skip(1)[2] == d);
    assert(spec_number(s.skip(1)) == Some((100 + digit_value(d), 3int)));
    assert(s.skip(4) =~= seq!['m'] + rest);
}

/// The 8 and 24 bit color sequences select the color they name, whatever text follows:
/// `[38;5;<n>m` sets the text color and `[48;5;<n>m` the background color to color `n` of the
/// 256 color palette, `[38;2;<r>;<g>;<b>m` and `[48;2;<r>;<g>;<b>m` to the 24 bit color with
/// those channels (here for single-digit numbers); each sequence spans exactly its own
/// characters.
pub proof fn law_escape_seq_extended_colors(n: char, r: char, g: char, b: char, rest: Seq<char>)
    requires
        is_digit(n),
        is_digit(r),
        is_digit(g),
        is_digit(b),
    ensures
        spec_escape_seq(seq!['[', '3', '8', ';', '5', ';', n, 'm'] + rest) == Some(
            (EscapeToken::SetForeground(spec_palette_color(digit_value(n) as u8)), 8int),
        ),
        spec_escape_seq(seq!['[', '4', '8', ';', '5', ';', n, 'm'] + rest) == Some(
            (EscapeToken::SetBackground(spec_palette_color(digit_value(n) as u8)), 8int),
        ),
        spec_escape_seq(seq!['[', '3', '8', ';', '2', ';', r, ';', g, ';', b, 'm'] + rest) == Some(
            (
                EscapeToken::SetForeground(
                    Rgb {
                        r: digit_value(r) as u8,
                        g: digit_value(g) as u8,
                        b: digit_value(b) as u8,
                    },
                ),
                12int,
            ),
        ),
        spec_escape_seq(seq!['[', '4', '8', ';', '2', ';', r, ';', g, ';', b, 'm'] + rest) == Some(
            (
                EscapeToken::SetBackground(
                    Rgb {
                        r: digit_value(r) as u8,
                        g: digit_value(g) as u8,
                        b: digit_value(b) as u8,
                    },
                ),
                12int,
            ),
        ),
{
    lemma_palette_color_text(n, rest);
    lemma_rgb_color_text(r, g, b, rest);
    let p = seq!['5', ';', n, 'm'] + rest;
    let q = seq!['2', ';', r, ';', g, ';', b, 'm'] + rest;
    lemma_extended_sequence('3', p, 3, rest);
    lemma_extended_sequence('4', p, 3, rest);
    lemma_extended_sequence('3', q, 7, rest);
    lemma_extended_sequence('4', q, 7, rest);
}

/// The color text `5;<n>` followed by `m` and `rest` selects palette color `n` and spans
/// three characters.
proof fn lemma_palette_color_text(n: char, rest: Seq<char>)
    requires
        is_digit(n),
    ensures
        ({
            let p = seq!['5', ';', n, 'm'] + rest;
            &&& spec_color(p) == Some((spec_palette_color(digit_value(n) as u8), 3int))
            &&& p.skip(3) == seq!['m'] + rest
            &&& seq!['[', '3', '8', ';'] + p == seq!['[', '3', '8', ';', '5', ';', n, 'm'] + rest
            &&& seq!['[', '4', '8', ';'] + p == seq!['[', '4', '8', ';', '5', ';', n, 'm'] + rest
        }),
{
    reveal(spec_color);
    let p = seq!['5', ';', n, 'm'] + rest;
    assert(p[0] == '5' && p[1] == ';' && p[2] == n && p[3] == 'm');
    assert(spec_number(p) == Some((5int, 1int)));
    assert(p.skip(2)[0] == n && p.skip(2)[1] == 'm');
    assert(spec_number(p.skip(2)) == Some((digit_value(n), 1int)));
    assert(p.skip(3) =~= seq!['m'] + rest);
    assert(seq!['[', '3', '8', ';'] + p =~= seq!['[', '3', '8', ';', '5', ';', n, 'm'] + rest);
    assert(seq!['[', '4', '8', ';'] + p =~= seq!['[', '4', '8', ';', '5', ';', n, 'm'] + rest);
}

/// The color text `2;<r>;<g>;<b>` followed by `m` and `rest` selects the 24 bit color with
/// those channels and spans seven characters.
proof fn lemma_rgb_color_text(r: char, g: char, b: char, rest: Seq<char>)
    requires
        is_digit(r),
        is_digit(g),
        is_digit(b),
    ensures
        ({
            let q = seq!['2', ';', r, ';', g, ';', b, 'm'] + rest;
            let color = Rgb {
                r: digit_value(r) as u8,
                g: digit_value(g) as u8,
                b: digit_value(b) as u8,
            };
            &&& spec_color(q) == Some((color, 7int))
            &&& q.skip(7) == seq!['m'] + rest
            &&& seq!['[', '3', '8', ';'] + q == seq!['[', '3', '8', ';', '2', ';', r, ';', g, ';', b, 'm']
                + rest
            &&& seq!['[', '4', '8', ';'] + q == seq!['[', '4', '8', ';', '2', ';', r, ';', g, ';', b, 'm']
                + rest
        }),
{
    reveal(spec_color);
    reveal(spec_rgb);
    let q = seq!['2', ';', r, ';', g, ';', b, 'm'] + rest;
    let c = q.skip(2);
    assert(q[0] == '2' && q[1] == ';');
    assert(spec_number(q) == Some((2int, 1int)));
    assert(c[0] == r && c[1] == ';' && c[2] == g && c[3] == ';' && c[4] == b && c[5] == 'm');
    assert(spec_number(c) == Some((digit_value(r), 1int)));
    assert(c.skip(2)[0] == g && c.skip(2)[1] == ';');
    assert(spec_number(c.skip(2)) == Some((digit_value(g), 1int)));
    assert(c.skip(4)[0] == b && c.skip(4)[1] == 'm');
    assert(spec_number(c.skip(4)) == Some((digit_value(b), 1int)));
    assert(q.skip(7) =~= seq!['m'] + rest);
    assert(seq!['[', '3', '8', ';'] + q =~= seq!['[', '3', '8', ';', '2', ';', r, ';', g, ';', b, 'm']
        + rest);
    assert(seq!['[', '4', '8', ';'] + q =~= seq!['[', '4', '8', ';', '2', ';', r, ';', g, ';', b, 'm']
        + rest);
}

/// The sequence `[<a>8;` followed by a color text `p` whose color spans `k` characters and is
/// followed by `m` reads code `<a>8` and that color, and ends after the `m`.
proof fn lemma_extended_sequence(a: char, p: Seq<char>, k: int, rest: Seq<char>)
    requires
        a == '3' || a == '4',
        0 <= k < p.len(),
        spec_color(p) matches Some((_, m)) && m == k,
        p.skip(k) == seq!['m'] + rest,
    ensures
        ({
            let s = seq!['[', a, '8', ';'] + p;
            let color = spec_color(p).unwrap().0;
            spec_escape_seq(s) == Some(
                (
                    if a == '3' {
                        EscapeToken::SetForeground(color)
                    } else {
                        EscapeToken::SetBackground(color)
                    },
                    4 + k + 1,
                ),
            )
        }),
{
    let s = seq!['[', a, '8', ';'] + p;
    assert(s[0] == '[' && s[1] == a && s[2] == '8' && s[3] == ';');
    assert(s.skip(1)[0] == a && s.skip(1)[1] == '8' && s.skip(1)[2] == ';');
    assert(spec_number(s.skip(1)) == Some((10 * digit_value(a) + 8, 2int)));
    let r0 = s.skip(3);
    assert(r0[0] == ';');
    assert(r0.skip(1) =~= p);
    assert(s[4 + k] == p[k]);
    assert(p[k] == (seq!['m'] + rest)[0]);
}

/// The sequence `[<a><d>m` followed by `rest` reads the two-digit code `<a><d>` and ends
/// after the `m`.
proof fn lemma_two_digit_sequence(a: char, d: char, rest: Seq<char>)
    requires
        is_digit(a),
        is_digit(d),
    ensures
        ({
            let s = seq!['[', a, d, 'm'] + rest;
            &&& s[0] == '['
            &&& spec_number(s.skip(1)) == Some((10 * digit_value(a) + digit_value(d), 2int))
            &&& char_at(s, 3, 'm')
            &&& s.skip(3) == seq!['m'] + rest
        }),
{
    let s = seq!['[', a, d, 'm'] + rest;
    assert(s[0] == '[' && s[1] == a && s[2] == d && s[3] == 'm');
    assert(s.skip(1)[0] == a && s.skip(1)[1] == d && s.skip(1)[2] == 'm');
    assert(s.skip(3) =~= seq!['m'] + rest);
}

/// Advances `chars` by `n` characters.
fn advance<'a>(chars: &mut &'a str, n: usize)
    requires
        n <= old(chars)@.len(),
    ensures
        final(chars)@ == old(chars)@.skip(n as int),
{
    let s: &'a str = *chars;
    let len = s.unicode_len();
    let rest = s.substring_char(n, len);
    assert(rest@ =~= s@.skip(n as int));
    *chars = rest;
}

/// Parses a single decimal digit.
fn try_parse_digit<'a>(chars: &mut &'a str) -> (r: Option<u8>)
    ensures
        old(chars)@.len() >= 1 && is_digit(old(chars)@[0]) ==> r == Some(
            digit_value(old(chars)@[0]) as u8,
        ) && final(chars)@ == old(chars)@.skip(1),
        !(old(chars)@.len() >= 1 && is_digit(old(chars)@[0])) ==> r is None && final(chars)@
            == old(chars)@,
{
    let s: &'a str = *chars;
    if s.unicode_len() >= 1 {
        let c = s.get_char(0);
        if '0' <= c && c <= '9' {
            advance(chars, 1);
            return Some((c as u32 - '0' as u32) as u8);
        }
    }
    None
}

/// Consumes `expected` if the text continues with it.
fn expect<'a>(chars: &mut &'a str, expected: char) -> (r: Option<()>)
    ensures
        char_at(old(chars)@, 0, expected) ==> r is Some && final(chars)@ == old(chars)@.skip(1),
        !char_at(old(chars)@, 0, expected) ==> r is None && final(chars)@ == old(chars)@,
{
    let s: &'a str = *chars;
    if s.unicode_len() >= 1 && s.get_char(0) == expected {
        advance(chars, 1);
        Some(())
    } else {
        None
    }
}

/// Parses a decimal number of at most three digits; the text is left unchanged if it does not
/// start with a digit.
fn try_parse_u8<'a>(chars: &mut &'a str) -> (r: Option<u8>)
    requires
        number_fits(old(chars)@),
    ensures
        match spec_number(old(chars)@) {
            None => r is None && final(chars)@ == old(chars)@,
            Some((v, n)) => r == Some(v as u8) && final(chars)@ == old(chars)@.skip(n as int),
        },
{
    let ghost s = old(chars)@;
    if let Some(h) = try_parse_digit(chars) {
        if let Some(t) = try_parse_digit(chars) {
            assert(s.skip(1)[0] == s[1]);
            if let Some(o) = try_parse_digit(chars) {
                assert(s.skip(1).skip(1) =~= s.skip(2));
                assert(s.skip(2)[0] == s[2]);
                assert(s.skip(2).skip(1) =~= s.skip(3));
                Some(100 * h + 10 * t + o)
            } else {
                proof {
                    assert(s.skip(1).skip(1) =~= s.skip(2));
                    if s.len() >= 3 {
                        assert(s.skip(2)[0] == s[2]);
                    }
                }
                Some(10 * h + t)
            }
        } else {
            proof {
                if s.len() >= 2 {
                    assert(s.skip(1)[0] == s[1]);
                }
            }
            Some(h)
        }
    } else {
        None
    }
}

/// `t` is what is left of `s` after a prefix was consumed.
pub open spec fn is_suffix(t: Seq<char>, s: Seq<char>) -> bool {
    t.len() <= s.len() && t == s.skip(s.len() - t.len())
}

/// Parses an 8 bit color: a number selecting a color of the 256 color palette.
fn try_parse_8b_color<'a>(chars: &mut &'a str) -> (r: Option<Rgb>)
    requires
        number_fits(old(chars)@),
    ensures
        match spec_number(old(chars)@) {
            None => r is None && final(chars)@ == old(chars)@,
            Some((v, n)) => r == Some(spec_palette_color(v as u8)) && final(chars)@ == old(
                chars,
            )@.skip(n),
        },
{
    let color = try_parse_u8(chars)?;
    Some(palette_color(color))
}

/// A parsed color spans some of the text, and no more than there is.
proof fn lemma_color_len(s: Seq<char>)
    ensures
        spec_rgb(s) matches Some((_, m)) ==> 0 < m <= s.len(),
        spec_color(s) matches Some((_, m)) ==> 0 < m <= s.len(),
{
    reveal(spec_rgb);
    reveal(spec_color);
    if let Some((_, n)) = spec_number(s) {
        if char_at(s, n, ';') {
            let rest = s.skip(n + 1);
            if let Some((_, m)) = spec_rgb(rest) {
                assert(m <= rest.len());
            }
            if let Some((_, n1)) = spec_number(rest) {
                if char_at(rest, n1, ';') {
                    let r2 = rest.skip(n1 + 1);
                    if let Some((_, n2)) = spec_number(r2) {
                        if char_at(r2, n2, ';') {
                            let _ = spec_number(r2.skip(n2 + 1));
                        }
                    }
                }
            }
        }
    }
}

/// A sequence is a suffix of itself, and so is what is left after skipping a prefix.
proof fn lemma_skip_is_suffix(s: Seq<char>, k: int)
    requires
        0 <= k <= s.len(),
    ensures
        is_suffix(s.skip(k), s),
        is_suffix(s, s),
{
    assert(s.skip(0) =~= s);
}

/// A suffix of a suffix is a suffix.
proof fn lemma_suffix_trans(t: Seq<char>, u: Seq<char>, s: Seq<char>)
    requires
        is_suffix(t, u),
        is_suffix(u, s),
    ensures
        is_suffix(t, s),
{
    assert(t =~= s.skip(s.len() - t.len()));
}

/// Parses a 24 bit color `<r>;<g>;<b>`. On failure, the characters read so far are consumed.
fn try_parse_rgb<'a>(chars: &mut &'a str) -> (r: Option<Rgb>)
    requires
        rgb_fits(old(chars)@),
    ensures
        match spec_rgb(old(chars)@) {
            None => r is None && is_suffix(final(chars)@, old(chars)@),
            Some((c, n)) => r == Some(c) && final(chars)@ == old(chars)@.skip(n),
        },
{
    reveal(spec_rgb);
    reveal(rgb_fits);
    let ghost s = old(chars)@;
    proof {
        lemma_skip_is_suffix(s, 0);
    }
    let r = match try_parse_u8(chars) {
        Some(r) => r,
        None => return None,
    };
    let ghost n1 = spec_number(s).unwrap().1;
    proof {
        lemma_skip_is_suffix(s, n1);
        if n1 + 1 <= s.len() {
            lemma_skip_is_suffix(s, n1 + 1);
        }
    }
    if expect(chars, ';').is_none() {
        return None;
    }
    assert(s.skip(n1).skip(1) =~= s.skip(n1 + 1));
    let g = match try_parse_u8(chars) {
        Some(g) => g,
        None => return None,
    };
    let ghost n2 = spec_number(s.skip(n1 + 1)).unwrap().1;
    assert(s.skip(n1 + 1).skip(n2) =~= s.skip(n1 + 1 + n2));
    proof {
        lemma_skip_is_suffix(s, n1 + 1 + n2);
        if n1 + 1 + n2 + 1 <= s.len() {
            lemma_skip_is_suffix(s, n1 + 1 + n2 + 1);
        }
    }
    if expect(chars, ';').is_none() {
        return None;
    }
    assert(s.skip(n1 + 1 + n2).skip(1) =~= s.skip(n1 + 1 + n2 + 1));
    let b = match try_parse_u8(chars) {
        Some(b) => b,
        None => return None,
    };
    let ghost n3 = spec_number(s.skip(n1 + n2 + 2)).unwrap().1;
    assert(s.skip(n1 + n2 + 2).skip(n3) =~= s.skip(n1 + n2 + 2 + n3));
    Some(Rgb::new(r, g, b))
}

/// Parses a color: `5;<n>` selects color `n` of the 256 color palette, `2;<r>;<g>;<b>` a 24
/// bit color. On failure, the characters read so far are consumed.
fn try_parse_color<'a>(chars: &mut &'a str) -> (r: Option<Rgb>)
    requires
        color_fits(old(chars)@),
    ensures
        match spec_color(old(chars)@) {
            None => r is None && is_suffix(final(chars)@, old(chars)@),
            Some((c, n)) => r == Some(c) && final(chars)@ == old(chars)@.skip(n),
        },
{
    reveal(spec_color);
    reveal(color_fits);
    let ghost s = old(chars)@;
    proof {
        lemma_skip_is_suffix(s, 0);
    }
    let color_type = match try_parse_u8(chars) {
        Some(t) => t,
        None => return None,
    };
    let ghost n = spec_number(s).unwrap().1;
    proof {
        lemma_skip_is_suffix(s, n);
        if n + 1 <= s.len() {
            lemma_skip_is_suffix(s, n + 1);
        }
    }
    if expect(chars, ';').is_none() {
        return None;
    }
    assert(s.skip(n).skip(1) =~= s.skip(n + 1));
    let ghost rest = s.skip(n + 1);
    match color_type {
        5 => {
            let c = try_parse_8b_color(chars);
            proof {
                if let Some((_, m)) = spec_number(rest) {
                    lemma_color_len(rest);
                assert(rest.skip(m) =~= s.skip(n + 1 + m));
                }
            }
            c
        },
        2 => {
            let c = try_parse_rgb(chars);
            proof {
                if let Some((_, m)) = spec_rgb(rest) {
                    lemma_color_len(rest);
                assert(rest.skip(m) =~= s.skip(n + 1 + m));
                } else {
                    assert(chars@ =~= s.skip(s.len() - chars@.len()));
                }
            }
            c
        },
        _ => None,
    }
}

/// Parses the token of the SGR code `code`, reading a color after `38` and `48`.
fn try_parse_sgr_token<'a>(chars: &mut &'a str, code: u8) -> (r: Option<EscapeToken>)
    requires
        (code == 38 || code == 48) && char_at(old(chars)@, 0, ';') ==> color_fits(
            old(chars)@.skip(1),
        ),
    ensures
        match spec_sgr_token(old(chars)@, code as int) {
            None => r is None && is_suffix(final(chars)@, old(chars)@),
            Some((t, m)) => r == Some(t) && final(chars)@ == old(chars)@.skip(m),
        },
{
    proof {
        lemma_skip_is_suffix(old(chars)@, 0);
    }
    if 30 <= code && code <= 37 {
        Some(EscapeToken::SetForeground(standard_color_to_rgb(code - 30)))
    } else if code == 38 {
        expect(chars, ';')?;
        let ghost after = chars@;
        match try_parse_color(chars) {
            Some(color) => {
                proof {
                    let m = spec_color(old(chars)@.skip(1)).unwrap().1;
                    lemma_color_len(old(chars)@.skip(1));
                    assert(old(chars)@.skip(1).skip(m) =~= old(chars)@.skip(m + 1));
                }
                Some(EscapeToken::SetForeground(color))
            },
            None => {
                proof {
                    lemma_skip_is_suffix(old(chars)@, 1);
                    lemma_suffix_trans(chars@, after, old(chars)@);
                }
                None
            },
        }
    } else if 90 <= code && code <= 97 {
        Some(EscapeToken::SetForeground(standard_color_to_rgb(code - 82)))
    } else if 40 <= code && code <= 47 {
        Some(EscapeToken::SetBackground(standard_color_to_rgb(code - 40)))
    } else if code == 48 {
        expect(chars, ';')?;
        let ghost after = chars@;
        match try_parse_color(chars) {
            Some(color) => {
                proof {
                    let m = spec_color(old(chars)@.skip(1)).unwrap().1;
                    lemma_color_len(old(chars)@.skip(1));
                    assert(old(chars)@.skip(1).skip(m) =~= old(chars)@.skip(m + 1));
                }
                Some(EscapeToken::SetBackground(color))
            },
            None => {
                proof {
                    lemma_skip_is_suffix(old(chars)@, 1);
                    lemma_suffix_trans(chars@, after, old(chars)@);
                }
                None
            },
        }
    } else if 100 <= code && code <= 107 {
        Some(EscapeToken::SetBackground(standard_color_to_rgb(code - 92)))
    } else {
        None
    }
}

/// Parses the escape sequence that follows an escape character. Only a single attribute is
/// supported at a time. The text is left unchanged if no supported sequence follows.
pub fn try_parse_escape_seq<'a>(chars: &mut &'a str) -> (r: Option<EscapeToken>)
    requires
        escape_seq_fits(old(chars)@),
    ensures
        match spec_escape_seq(old(chars)@) {
            None => r is None && final(chars)@ == old(chars)@,
            Some((t, n)) => r == Some(t) && final(chars)@ == old(chars)@.skip(n),
        },
{
    let ghost s = old(chars)@;
    let mut copy: &'a str = *chars;
    let len = copy.unicode_len();
    if len == 0 {
        return None;
    }
    let c = copy.get_char(0);
    if c == SPEC_CHAR_ESCAPE {
        advance(chars, 1);
        return Some(EscapeToken::Escape);
    }
    if c != '[' {
        return None;
    }
    advance(&mut copy, 1);
    let code = match try_parse_u8(&mut copy) {
        Some(code) => code,
        None => return None,
    };
    let ghost n = spec_number(s.skip(1)).unwrap().1;
    assert(s.skip(1).skip(n) =~= s.skip(1 + n));
    proof {
        if copy@.len() >= 1 {
            assert(copy@.skip(1) =~= s.skip(1 + n + 1));
        }
        assert(char_at(copy@, 0, ';') == char_at(s, 1 + n, ';'));
    }
    let possible_token = try_parse_sgr_token(&mut copy, code);
    if possible_token.is_none() {
        return None;
    }
    let ghost m = spec_sgr_token(s.skip(1 + n), code as int).unwrap().1;
    proof {
        lemma_color_len(s.skip(1 + n + 1));
        assert(0 <= m <= s.skip(1 + n).len());
    }
    assert(s.skip(1 + n).skip(m) =~= s.skip(1 + n + m));
    if expect(&mut copy, 'm').is_none() {
        return None;
    }
    assert(s.skip(1 + n + m).skip(1) =~= s.skip(1 + n + m + 1));
    *chars = copy;
    possible_token
}

} // verus!