//! Fully justified text.
use vstd::prelude::*;

use crate::alignment::LineMeasurement;
use crate::parser::chars::{lemma_prefix_run, lemma_prefix_run_bounds, prefix_run, SPEC_CHAR_NBSP};

verus! {

/// Marks text to be rendered fully justified.
#[derive(Copy, Clone, Debug)]
pub struct Justified;

/// The characters that are stretched in justified text: the space and the non-breaking space.
pub open spec fn is_stretchable(c: char) -> bool {
    c == ' ' || c == SPEC_CHAR_NBSP
}

/// Number of stretchable characters in `s`.
pub open spec fn count_stretchable(s: Seq<char>) -> nat
    decreases s.len(),
{
    if s.len() == 0 {
        0
    } else {
        count_stretchable(s.drop_last()) + if is_stretchable(s.last()) {
            1nat
        } else {
            0nat
        }
    }
}

/// Number of stretchable characters at the end of `s`.
pub open spec fn trailing_stretchable(s: Seq<char>) -> nat
    decreases s.len(),
{
    if s.len() > 0 && is_stretchable(s.last()) {
        1 + trailing_stretchable(s.drop_last())
    } else {
        0
    }
}

/// Number of stretchable characters at the start of `s`.
pub open spec fn leading_stretchable(s: Seq<char>) -> nat {
    prefix_run(s, |c: char| is_stretchable(c))
}

/// The stretchable characters of a line that lie between its first and its last other
/// character: spaces at the start and at the end of a line are not stretched.
pub open spec fn interior_spaces(s: Seq<char>) -> nat {
    let lead = leading_stretchable(s);
    if lead == s.len() {
        0
    } else {
        count_stretchable(s.subrange(lead as int, s.len() - trailing_stretchable(s)))
    }
}

/// Number of stretchable characters in the concatenation of two sequences.
pub proof fn lemma_count_stretchable_concat(a: Seq<char>, b: Seq<char>)
    ensures
        count_stretchable(a + b) == count_stretchable(a) + count_stretchable(b),
    decreases b.len(),
{
    if b.len() == 0 {
        assert(a + b =~= a);
    } else {
        lemma_count_stretchable_concat(a, b.drop_last());
        assert((a + b).drop_last() =~= a + b.drop_last());
    }
}

/// No more characters are counted than there are.
pub proof fn lemma_count_stretchable_bound(s: Seq<char>)
    ensures
        count_stretchable(s) <= s.len(),
    decreases s.len(),
{
    if s.len() > 0 {
        lemma_count_stretchable_bound(s.drop_last());
    }
}

/// A line has no more interior spaces than characters.
pub proof fn lemma_interior_spaces_bound(s: Seq<char>)
    ensures
        interior_spaces(s) <= s.len(),
{
    let lead = leading_stretchable(s);
    lemma_prefix_run_bounds(s, |c: char| is_stretchable(c));
    if lead < s.len() {
        lemma_trailing_run_all(s, trailing_stretchable(s) as int);
        let end = s.len() - trailing_stretchable(s);
        assert(lead < end);
        lemma_count_stretchable_bound(s.subrange(lead as int, end));
    }
}

/// A sequence of stretchable characters counts all of them.
pub proof fn lemma_count_all_stretchable(s: Seq<char>)
    requires
        forall|i: int| 0 <= i < s.len() ==> is_stretchable(#[trigger] s[i]),
    ensures
        count_stretchable(s) == s.len(),
        trailing_stretchable(s) == s.len(),
    decreases s.len(),
{
    if s.len() > 0 {
        lemma_count_all_stretchable(s.drop_last());
    }
}

/// Justified space configuration: the width of a space, and the number of spaces that are one
/// pixel wider.
pub open spec fn justified_config(space_width: u32, m: LineMeasurement, spaces: nat) -> (u32, u32) {
    if !m.last_line && spaces != 0 {
        let total = m.max_line_width - m.width + spaces * space_width;
        ((total / (spaces as int)) as u32, (total % (spaces as int)) as u32)
    } else {
        (space_width, 0)
    }
}

/// Internal state information used to store width of whitespace characters when rendering fully
/// justified text.
///
/// The fully justified renderer works by calculating the width of whitespace characters for the
/// current line. Due to integer arithmetic, there can be remainder pixels when a single space
/// width is used. This struct stores two width values so the whole line will always (at least if
/// there's a space in the line) take up all available space.
#[derive(Copy, Clone, Debug)]
pub struct JustifiedSpaceConfig {
    /// The width of the whitespace characters.
    space_width: u32,
    /// Stores how many characters are rendered using the space_width width. This field changes
    /// during rendering.
    space_count: u32,
}

/// Width of the next `n` whitespace characters: each is `space_width` wide, and the first
/// `extra` of them one pixel wider.
pub open spec fn spaces_width(space_width: u32, extra: u32, n: u32) -> int {
    n * space_width + if extra < n {
        extra as int
    } else {
        n as int
    }
}

impl JustifiedSpaceConfig {
    /// The width of a whitespace character.
    pub closed spec fn width(&self) -> u32 {
        self.space_width
    }

    /// The number of whitespace characters that are still one pixel wider.
    pub closed spec fn wide_spaces(&self) -> u32 {
        self.space_count
    }

    /// Creates a configuration where the first `extra_pixel_count` spaces are one pixel wider
    /// than `space_width`.
    pub fn new(space_width: u32, extra_pixel_count: u32) -> (r: Self)
        ensures
            r.width() == space_width,
            r.wide_spaces() == extra_pixel_count,
    {
        JustifiedSpaceConfig { space_width, space_count: extra_pixel_count }
    }

    /// Returns the width of the next `whitespace_count` whitespace characters.
    pub fn peek_next_width(&self, whitespace_count: u32) -> (r: u32)
        requires
            spaces_width(self.width(), self.wide_spaces(), whitespace_count) <= u32::MAX,
        ensures
            r == spaces_width(self.width(), self.wide_spaces(), whitespace_count),
    {
        proof {
            assert(whitespace_count * self.space_width <= u32::MAX) by (nonlinear_arith)
                requires
                    spaces_width(self.space_width, self.space_count, whitespace_count) <= u32::MAX,
            ;
        }
        whitespace_count * self.space_width + if self.space_count < whitespace_count {
            self.space_count
        } else {
            whitespace_count
        }
    }

    /// Returns the width of the next `n` whitespace characters and marks them as rendered.
    pub fn consume(&mut self, n: u32) -> (r: u32)
        requires
            spaces_width(old(self).width(), old(self).wide_spaces(), n) <= u32::MAX,
        ensures
            r == spaces_width(old(self).width(), old(self).wide_spaces(), n),
            final(self).width() == old(self).width(),
            final(self).wide_spaces() == if old(self).wide_spaces() > n {
                old(self).wide_spaces() - n
            } else {
                0
            },
    {
        let w = self.peek_next_width(n);
        self.space_count = self.space_count.saturating_sub(n);
        w
    }
}

/// Consuming whitespace in two steps gives the same total width as consuming it in one step:
/// the width that `consume` hands out does not depend on how the spaces are grouped.
pub proof fn law_consume_split(space_width: u32, extra: u32, a: u32, b: u32)
    requires
        a + b <= u32::MAX,
    ensures
        spaces_width(space_width, extra, a) + spaces_width(
            space_width,
            (if extra > a { extra - a } else { 0 }) as u32,
            b,
        ) == spaces_width(space_width, extra, (a + b) as u32),
{
    assert(a * space_width + b * space_width == (a + b) * space_width) by (nonlinear_arith);
}

impl Justified {
    /// Spaces at the start of a line are not rendered.
    pub const STARTING_SPACES: bool = false;

    /// Spaces at the end of a line are not rendered.
    pub const ENDING_SPACES: bool = false;

    /// Places a line of justified text: the spaces between the first and the last word are
    /// stretched so that the line fills `max_line_width`, unless the line ends a paragraph.
    /// `space_width` is the width of a space character in the text renderer.
    pub fn place_line(line: &str, space_width: u32, measurement: LineMeasurement) -> (r: (
        u32,
        JustifiedSpaceConfig,
    ))
        requires
            line@.len() <= u32::MAX,
            (!measurement.last_line && interior_spaces(line@) != 0) ==> measurement.width
                <= measurement.max_line_width && measurement.max_line_width - measurement.width
                + interior_spaces(line@) * space_width <= u32::MAX,
        ensures
            r.0 == 0,
            (r.1.width(), r.1.wide_spaces()) == justified_config(
                space_width,
                measurement,
                interior_spaces(line@),
            ),
    {
        let space_count = count_interior_spaces(line);

        let space_info = if !measurement.last_line && space_count != 0 {
            proof {
                let k = space_count as int;
                assert(k * space_width <= u32::MAX) by (nonlinear_arith)
                    requires
                        measurement.max_line_width - measurement.width + k * space_width
                            <= u32::MAX,
                        measurement.width <= measurement.max_line_width,
                ;
            }
            let space = measurement.max_line_width - measurement.width + space_count * space_width;
            let space_width = space / space_count;
            let extra_pixels = space % space_count;
            JustifiedSpaceConfig::new(space_width, extra_pixels)
        } else {
            JustifiedSpaceConfig::new(space_width, 0)
        };
        (0, space_info)
    }
}

/// Counts the spaces of `line` that lie between its first and its last non-space character.
fn count_interior_spaces(line: &str) -> (r: u32)
    requires
        line@.len() <= u32::MAX,
    ensures
        r == interior_spaces(line@),
{
    let ghost s = line@;
    let n = line.unicode_len();
    let mut started = false;
    let mut space_count: u32 = 0;
    let mut partial_space_count: u32 = 0;
    let mut i: usize = 0;
    while i < n
        invariant
            n == s.len(),
            n <= u32::MAX,
            s == line@,
            0 <= i <= n,
            !started ==> {
                &&& forall|j: int| 0 <= j < i ==> is_stretchable(#[trigger] s[j])
                &&& space_count == 0
                &&& partial_space_count == 0
            },
            started ==> leading_stretchable(s) < i,
            started ==> partial_space_count == trailing_stretchable(s.take(i as int)),
            started ==> partial_space_count <= i - leading_stretchable(s) - 1,
            started ==> space_count == count_stretchable(
                s.subrange(leading_stretchable(s) as int, i - partial_space_count),
            ),
            started ==> space_count + partial_space_count <= i,
        decreases n - i,
    {
        let c = line.get_char(i);
        let space = c == ' ' || c == SPEC_CHAR_NBSP;
        proof {
            assert(s.take(i + 1).drop_last() =~= s.take(i as int));
            assert(s.take(i + 1).last() == c);
        }
        if !started {
            if !space {
                started = true;
                proof {
                    lemma_prefix_run(s, |c: char| is_stretchable(c), i as int);
                    assert(s.subrange(i as int, i + 1) =~= seq![c]);
                    assert(seq![c].drop_last() =~= Seq::<char>::empty());
                    assert(count_stretchable(Seq::<char>::empty()) == 0);
                    assert(count_stretchable(seq![c]) == 0);
                    assert(count_stretchable(s.subrange(i as int, i + 1)) == 0);
                }
            }
        } else {
            let ghost lead = leading_stretchable(s) as int;
            let ghost p = partial_space_count as int;
            if space {
                proof {
                    assert(s.subrange(lead, i + 1 - (p + 1)) =~= s.subrange(lead, i - p));
                }
                partial_space_count += 1;
            } else {
                proof {
                    let head = s.subrange(lead, i - p);
                    let tail = s.subrange(i - p, i + 1);
                    assert(s.subrange(lead, i + 1) =~= head + tail);
                    lemma_count_stretchable_concat(head, tail);
                    let spaces = s.subrange(i - p, i as int);
                    assert(tail =~= spaces.push(c));
                    assert(tail.drop_last() =~= spaces);
                    lemma_trailing_run_all(s.take(i as int), p);
                    assert forall|j: int| 0 <= j < spaces.len() implies is_stretchable(
                        #[trigger] spaces[j],
                    ) by {
                        assert(spaces[j] == s.take(i as int)[i - p + j]);
                    }
                    lemma_count_all_stretchable(spaces);
                    assert(count_stretchable(tail) == p);
                    assert(count_stretchable(s.subrange(lead, i + 1)) == partial_space_count + space_count);
                }
                space_count += partial_space_count;
                partial_space_count = 0;
            }
        }
        i += 1;
    }
    proof {
        assert(s.take(n as int) =~= s);
        lemma_prefix_run_bounds(s, |c: char| is_stretchable(c));
        if !started {
            lemma_prefix_run(s, |c: char| is_stretchable(c), n as int);
        }
    }
    space_count
}

/// The last `trailing_stretchable(s)` characters of `s` are stretchable.
proof fn lemma_trailing_run_all(s: Seq<char>, p: int)
    requires
        p == trailing_stretchable(s),
    ensures
        p <= s.len(),
        forall|j: int| s.len() - p <= j < s.len() ==> is_stretchable(#[trigger] s[j]),
    decreases s.len(),
{
    if s.len() > 0 && is_stretchable(s.last()) {
        lemma_trailing_run_all(s.drop_last(), p - 1);
        assert forall|j: int| s.len() - p <= j < s.len() implies is_stretchable(#[trigger] s[j]) by {
            if j < s.len() - 1 {
                assert(s[j] == s.drop_last()[j]);
            }
        }
    }
}

/// A justified line that is not the last line of its paragraph, and holds interior spaces, is
/// stretched so that its interior spaces together take up the leftover pixels and their
/// natural width; fewer than one extra pixel per space is left to distribute.
pub proof fn law_justified_spaces_fill_line(line: Seq<char>, space_width: u32, m: LineMeasurement)
    requires
        line.len() <= u32::MAX,
        !m.last_line,
        interior_spaces(line) != 0,
        m.width <= m.max_line_width,
        m.max_line_width - m.width + interior_spaces(line) * space_width <= u32::MAX,
    ensures
        ({
            let k = interior_spaces(line);
            let (width, extra) = justified_config(space_width, m, k);
            &&& extra < k
            &&& spaces_width(width, extra, k as u32) == m.max_line_width - m.width + k
                * space_width
        }),
{
    let k = interior_spaces(line) as int;
    lemma_interior_spaces_bound(line);
    let total = m.max_line_width - m.width + k * space_width;
    assert(k * (total / k) + total % k == total) by (nonlinear_arith)
        requires
            k > 0,
    ;
    assert(total / k <= total) by (nonlinear_arith)
        requires
            k > 0,
            total >= 0,
    ;
}

} // verus!
