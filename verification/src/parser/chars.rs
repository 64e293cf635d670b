//! Character classes used to split text into tokens.
use vstd::prelude::*;

verus! {

/// Non-breaking space: a whitespace character that is part of a word.
pub const SPEC_CHAR_NBSP: char = '\u{a0}';

/// Zero-width space: a possible wrapping point.
pub const SPEC_CHAR_ZWSP: char = '\u{200b}';

/// Soft hyphen: a possible wrapping point that renders as `-` when the line is wrapped.
pub const SPEC_CHAR_SHY: char = '\u{ad}';

/// The escape character that starts an ANSI escape sequence.
pub const SPEC_CHAR_ESCAPE: char = '\u{1b}';

/// The characters that have the Unicode `White_Space` property.
pub open spec fn spec_is_whitespace(c: char) -> bool {
    ||| '\u{9}' <= c <= '\u{d}'
    ||| c == ' '
    ||| c == '\u{85}'
    ||| c == '\u{a0}'
    ||| c == '\u{1680}'
    ||| '\u{2000}' <= c <= '\u{200a}'
    ||| c == '\u{2028}'
    ||| c == '\u{2029}'
    ||| c == '\u{202f}'
    ||| c == '\u{205f}'
    ||| c == '\u{3000}'
}

/// True if `c` has the Unicode `White_Space` property, as `char::is_whitespace` decides.
pub fn is_whitespace(c: char) -> (r: bool)
    ensures
        r == spec_is_whitespace(c),
{
    ('\u{9}' <= c && c <= '\u{d}') || c == ' ' || c == '\u{85}' || c == '\u{a0}' || c == '\u{1680}'
        || ('\u{2000}' <= c && c <= '\u{200a}') || c == '\u{2028}' || c == '\u{2029}' || c
        == '\u{202f}' || c == '\u{205f}' || c == '\u{3000}'
}

/// Word characters: everything but whitespace, zero-width space and soft hyphen, except that a
/// non-breaking space belongs to the word.
pub open spec fn spec_is_word_char(c: char) -> bool {
    (!spec_is_whitespace(c) || c == SPEC_CHAR_NBSP) && c != SPEC_CHAR_ZWSP && c != SPEC_CHAR_SHY
}

/// Characters that continue a whitespace sequence: whitespace other than line breaks, tabs and
/// the non-breaking space, and the zero-width space.
pub open spec fn spec_is_space_char(c: char) -> bool {
    (spec_is_whitespace(c) && c != '\n' && c != '\r' && c != '\t' && c != SPEC_CHAR_NBSP) || c
        == SPEC_CHAR_ZWSP
}

/// Word tokens are terminated when a whitespace, zwsp or shy character is found. An exception
/// to this rule is the nbsp, which is whitespace but is included in the word.
pub fn is_word_char(c: char) -> (r: bool)
    ensures
        r == spec_is_word_char(c),
{
    (!is_whitespace(c) || c == SPEC_CHAR_NBSP) && c != SPEC_CHAR_ZWSP && c != SPEC_CHAR_SHY
}

/// A zero-width space breaks whitespace sequences; this works as long as space handling is
/// symmetrical (starting and ending behaviour are the same).
pub fn is_space_char(c: char) -> (r: bool)
    ensures
        r == spec_is_space_char(c),
{
    (is_whitespace(c) && c != '\n' && c != '\r' && c != '\t' && c != SPEC_CHAR_NBSP) || c
        == SPEC_CHAR_ZWSP
}

/// Length of the longest prefix of `s` whose characters all satisfy `p`.
pub open spec fn prefix_run(s: Seq<char>, p: spec_fn(char) -> bool) -> nat
    decreases s.len(),
{
    if s.len() > 0 && p(s[0]) {
        1 + prefix_run(s.drop_first(), p)
    } else {
        0
    }
}

/// The run ends at the first character that fails `p`.
pub proof fn lemma_prefix_run(s: Seq<char>, p: spec_fn(char) -> bool, i: int)
    requires
        0 <= i <= s.len(),
        forall|j: int| 0 <= j < i ==> p(#[trigger] s[j]),
        i == s.len() || !p(s[i]),
    ensures
        prefix_run(s, p) == i,
    decreases i,
{
    if i > 0 {
        assert forall|j: int| 0 <= j < i - 1 implies p(#[trigger] s.drop_first()[j]) by {
            assert(s.drop_first()[j] == s[j + 1]);
        }
        lemma_prefix_run(s.drop_first(), p, i - 1);
    }
}

/// Every character of the run satisfies `p`, and the run is followed by the end of `s` or by a
/// character that fails `p`.
pub proof fn lemma_prefix_run_bounds(s: Seq<char>, p: spec_fn(char) -> bool)
    ensures
        prefix_run(s, p) <= s.len(),
        forall|j: int| 0 <= j < prefix_run(s, p) ==> p(#[trigger] s[j]),
        prefix_run(s, p) == s.len() || !p(s[prefix_run(s, p) as int]),
    decreases s.len(),
{
    if s.len() > 0 && p(s[0]) {
        lemma_prefix_run_bounds(s.drop_first(), p);
        assert forall|j: int| 0 <= j < prefix_run(s, p) implies p(#[trigger] s[j]) by {
            if j > 0 {
                assert(s[j] == s.drop_first()[j - 1]);
            }
        }
    }
}

} // verus!
