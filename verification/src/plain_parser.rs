//! Parse text into words, newlines, whitespace sequences and wrapping points, without style
//! changes.
use vstd::prelude::*;

use crate::parser::chars::{
    is_whitespace, is_word_char, lemma_prefix_run, lemma_prefix_run_bounds, prefix_run, spec_is_whitespace,
    spec_is_word_char, SPEC_CHAR_NBSP, SPEC_CHAR_SHY, SPEC_CHAR_ZWSP,
};
use crate::parser::{counted_spaces, lemma_counted_spaces_first, lemma_counted_spaces_prefix};

use vstd::utf8::{decode_utf8, encode_utf8, encode_utf8_decode_utf8, is_char_boundary};

verus! {

/// A text token.
#[derive(Copy, Clone, Debug, PartialEq, Eq)]
pub enum Token<'a> {
    /// A newline character.
    NewLine,
    /// A \r character.
    CarriageReturn,
    /// A number of whitespace characters.
    Whitespace(u32),
    /// A word (a sequence of non-whitespace characters).
    Word(&'a str),
    /// A possible wrapping point, with the character to print if the line is wrapped there.
    Break(Option<char>),
    /// An extra character, used to carry soft breaking characters.
    ExtraCharacter(char),
}

/// A text token with its text taken as a character sequence.
pub enum TokenView {
    /// A newline character.
    NewLine,
    /// A \r character.
    CarriageReturn,
    /// A number of whitespace characters.
    Whitespace(u32),
    /// A word.
    Word(Seq<char>),
    /// A possible wrapping point.
    Break(Option<char>),
    /// An extra character.
    ExtraCharacter(char),
}

impl<'a> View for Token<'a> {
    type V = TokenView;

    open spec fn view(&self) -> TokenView {
        match *self {
            Token::NewLine => TokenView::NewLine,
            Token::CarriageReturn => TokenView::CarriageReturn,
            Token::Whitespace(n) => TokenView::Whitespace(n),
            Token::Word(w) => TokenView::Word(w@),
            Token::Break(c) => TokenView::Break(c),
            Token::ExtraCharacter(c) => TokenView::ExtraCharacter(c),
        }
    }
}

/// Whether the parser's next call on text `src` returns `token` and leaves `rest`: the first
/// token of the text and the text after it, or `None` and the text unchanged when it is empty.
pub open spec fn parser_next(src: Seq<char>, token: Option<TokenView>, rest: Seq<char>) -> bool {
    match first_token(src) {
        None => token is None && rest == src,
        Some((t, n)) => token == Some(t) && rest == src.skip(n as int),
    }
}

/// The view of an optional token.
pub open spec fn opt_view<'a>(t: Option<Token<'a>>) -> Option<TokenView> {
    match t {
        Some(t) => Some(t@),
        None => None,
    }
}

/// Characters that continue a whitespace sequence: whitespace other than line breaks and the
/// non-breaking space, and the zero-width space.
pub open spec fn spec_is_space_char(c: char) -> bool {
    (spec_is_whitespace(c) && c != '\n' && c != '\r' && c != SPEC_CHAR_NBSP) || c == SPEC_CHAR_ZWSP
}

/// Length of the word at the start of `s`.
pub open spec fn word_len(s: Seq<char>) -> nat {
    prefix_run(s, |c: char| spec_is_word_char(c))
}

/// Length of the whitespace sequence at the start of `s`.
pub open spec fn whitespace_len(s: Seq<char>) -> nat {
    1 + prefix_run(s.drop_first(), |c: char| spec_is_space_char(c))
}

/// The first token of `s` and the number of characters it spans, or `None` for empty text.
pub open spec fn first_token(s: Seq<char>) -> Option<(TokenView, nat)> {
    if s.len() == 0 {
        None
    } else if spec_is_word_char(s[0]) {
        Some((TokenView::Word(s.take(word_len(s) as int)), word_len(s)))
    } else if s[0] == '\n' {
        Some((TokenView::NewLine, 1))
    } else if s[0] == '\r' {
        Some((TokenView::CarriageReturn, 1))
    } else if s[0] == SPEC_CHAR_ZWSP {
        Some((TokenView::Break(None), 1))
    } else if s[0] == SPEC_CHAR_SHY {
        Some((TokenView::Break(Some('-')), 1))
    } else {
        let n = whitespace_len(s);
        Some(
            (
                TokenView::Whitespace((1 + counted_spaces(s.subrange(1, n as int))) as u32),
                n,
            ),
        )
    }
}

/// The parser's next token on `s` counts no more visible spaces than a `u32` holds: the
/// whitespace run at the start of `s`, if there is one, is short enough to be counted.
pub open spec fn count_fits(s: Seq<char>) -> bool {
    first_token(s) matches Some((TokenView::Whitespace(_), n)) ==> 1 + counted_spaces(
        s.subrange(1, n as int),
    ) <= u32::MAX
}

/// Every whitespace run of `s` can be counted: the parser's next token counts no more visible
/// spaces than a `u32` holds, wherever in `s` it starts.
pub open spec fn counts_fit(s: Seq<char>) -> bool {
    forall|i: int| 0 <= i <= s.len() ==> #[trigger] count_fits(s.skip(i))
}

/// What holds of a text whose whitespace runs can all be counted holds of its first token and
/// of each of its suffixes.
pub proof fn lemma_counts_fit(s: Seq<char>, k: int)
    requires
        counts_fit(s),
        0 <= k <= s.len(),
    ensures
        count_fits(s),
        counts_fit(s.skip(k)),
{
    assert(s.skip(0) =~= s);
    assert forall|i: int| 0 <= i <= s.skip(k).len() implies #[trigger] count_fits(
        s.skip(k).skip(i),
    ) by {
        assert(s.skip(k).skip(i) =~= s.skip(k + i));
    }
}

/// A token spans at least one character, and no more than the text holds.
pub proof fn lemma_first_token_len(s: Seq<char>)
    ensures
        first_token(s) matches Some((_, n)) ==> 1 <= n <= s.len(),
        first_token(s) is None <==> s.len() == 0,
{
    if s.len() > 0 {
        lemma_prefix_run_bounds(s, |c: char| spec_is_word_char(c));
        lemma_prefix_run_bounds(s.drop_first(), |c: char| spec_is_space_char(c));
    }
}

/// Each token of the plain parser spans exactly the characters it stands for: a newline, a
/// carriage return, a zero-width space and a soft hyphen are tokens of one character each; a
/// word is the longest run of word characters at the start of the text; a whitespace token is
/// the longest run of space characters that starts with a whitespace character which is not a
/// line break, and counts its characters but the zero-width spaces.
pub proof fn law_plain_tokens_span_their_text(s: Seq<char>)
    ensures
        first_token(s) is None <==> s.len() == 0,
        first_token(s) matches Some((TokenView::NewLine, n)) ==> n == 1 && s[0] == '\n',
        first_token(s) matches Some((TokenView::CarriageReturn, n)) ==> n == 1 && s[0] == '\r',
        first_token(s) matches Some((TokenView::Break(None), n)) ==> n == 1 && s[0]
            == SPEC_CHAR_ZWSP,
        first_token(s) matches Some((TokenView::Break(Some(c)), n)) ==> n == 1 && s[0]
            == SPEC_CHAR_SHY && c == '-',
        first_token(s) is Some ==> !(first_token(s).unwrap().0 is ExtraCharacter),
        first_token(s) matches Some((TokenView::Word(w), n)) ==> {
            &&& w == s.take(n as int)
            &&& 1 <= n <= s.len()
            &&& forall|j: int| 0 <= j < n ==> spec_is_word_char(#[trigger] s[j])
            &&& n == s.len() || !spec_is_word_char(s[n as int])
        },
        first_token(s) matches Some((TokenView::Whitespace(count), n)) ==> {
            &&& 1 <= n <= s.len()
            &&& forall|j: int| 0 <= j < n ==> spec_is_space_char(#[trigger] s[j])
            &&& s[0] != SPEC_CHAR_ZWSP
            &&& n == s.len() || !spec_is_space_char(s[n as int])
            &&& (counted_spaces(s.take(n as int)) <= u32::MAX ==> count == counted_spaces(
                s.take(n as int),
            ))
        },
        first_token(s) matches Some((_, n)) ==> 1 <= n <= s.len(),
{
    lemma_first_token_len(s);
    if s.len() > 0 {
        let rest = s.drop_first();
        lemma_prefix_run_bounds(s, |c: char| spec_is_word_char(c));
        lemma_prefix_run_bounds(rest, |c: char| spec_is_space_char(c));
        if !spec_is_word_char(s[0]) && s[0] != '\n' && s[0] != '\r' && s[0] != SPEC_CHAR_ZWSP
            && s[0] != SPEC_CHAR_SHY {
            let n = whitespace_len(s) as int;
            assert forall|j: int| 0 <= j < n implies spec_is_space_char(#[trigger] s[j]) by {
                if j > 0 {
                    assert(s[j] == rest[j - 1]);
                }
            }
            if n < s.len() {
                assert(s[n] == rest[n - 1]);
            }
            lemma_counted_spaces_first(s.take(n));
            assert(s.take(n)[0] == s[0]);
            assert(s.take(n).drop_first() =~= s.subrange(1, n));
        }
    }
}

/// The tokens the plain parser makes of `s`, one call of `next` after the other, until the
/// text is exhausted.
pub open spec fn all_tokens(s: Seq<char>) -> Seq<TokenView>
    decreases s.len(),
{
    proof {
        lemma_first_token_len(s);
    }
    match first_token(s) {
        None => Seq::empty(),
        Some((t, n)) => seq![t] + all_tokens(s.skip(n as int)),
    }
}

/// The number of newline characters in `s`.
pub open spec fn newline_count(s: Seq<char>) -> nat
    decreases s.len(),
{
    if s.len() == 0 {
        0
    } else {
        (if s[0] == '\n' {
            1nat
        } else {
            0nat
        }) + newline_count(s.drop_first())
    }
}

/// The number of `NewLine` tokens in `tokens`.
pub open spec fn newline_tokens(tokens: Seq<TokenView>) -> nat
    decreases tokens.len(),
{
    if tokens.len() == 0 {
        0
    } else {
        (if tokens[0] is NewLine {
            1nat
        } else {
            0nat
        }) + newline_tokens(tokens.drop_first())
    }
}

/// Counting newlines in two parts of a text counts the newlines of the text.
proof fn lemma_newline_count_split(s: Seq<char>, k: int)
    requires
        0 <= k <= s.len(),
    ensures
        newline_count(s) == newline_count(s.take(k)) + newline_count(s.skip(k)),
    decreases k,
{
    if k == 0 {
        assert(s.skip(0) =~= s);
        assert(s.take(0) =~= Seq::<char>::empty());
    } else {
        lemma_newline_count_split(s.drop_first(), k - 1);
        assert(s.drop_first().take(k - 1) =~= s.take(k).drop_first());
        assert(s.drop_first().skip(k - 1) =~= s.skip(k));
        assert(s.take(k)[0] == s[0]);
    }
}

/// A text without newline characters counts none.
proof fn lemma_no_newlines(s: Seq<char>)
    requires
        forall|j: int| 0 <= j < s.len() ==> #[trigger] s[j] != '\n',
    ensures
        newline_count(s) == 0,
    decreases s.len(),
{
    if s.len() > 0 {
        assert forall|j: int| 0 <= j < s.drop_first().len() implies #[trigger] s.drop_first()[j]
            != '\n' by {
            assert(s.drop_first()[j] == s[j + 1]);
        }
        lemma_no_newlines(s.drop_first());
    }
}

/// The plain parser keeps every line break: it makes exactly one `NewLine` token of each
/// newline character of the text, so consecutive newlines (blank lines) are not merged.
pub proof fn law_one_newline_token_per_newline(s: Seq<char>)
    ensures
        newline_tokens(all_tokens(s)) == newline_count(s),
    decreases s.len(),
{
    law_plain_tokens_span_their_text(s);
    if let Some((t, n)) = first_token(s) {
        let rest = s.skip(n as int);
        law_one_newline_token_per_newline(rest);
        let ts = all_tokens(s);
        assert(ts == seq![t] + all_tokens(rest));
        assert(ts.drop_first() =~= all_tokens(rest));
        lemma_newline_count_split(s, n as int);
        if t is NewLine {
            assert(s.take(1).drop_first() =~= Seq::<char>::empty());
        } else {
            assert forall|j: int| 0 <= j < s.take(n as int).len() implies #[trigger] s.take(
                n as int,
            )[j] != '\n' by {
                assert(s.take(n as int)[j] == s[j]);
                if t is Word {
                    assert(spec_is_word_char(s[j]));
                } else if t is Whitespace {
                    assert(spec_is_space_char(s[j]));
                }
            }
            lemma_no_newlines(s.take(n as int));
        }
    } else {
        assert(all_tokens(s) =~= Seq::<TokenView>::empty());
    }
}

/// Text parser. Turns a string into a stream of [`Token`] objects.
#[derive(Copy, Clone, Debug)]
pub struct Parser<'a> {
    inner: &'a str,
}

impl<'a> View for Parser<'a> {
    type V = Seq<char>;

    /// The text that is left to parse.
    closed spec fn view(&self) -> Seq<char> {
        self.inner@
    }
}

impl<'a> Parser<'a> {
    /// Creates a new parser object to process the given piece of text.
    pub fn parse(text: &'a str) -> (r: Self)
        ensures
            r@ == text@,
    {
        Self { inner: text }
    }

    /// Skips the first `bytes` bytes of the UTF-8 encoded text, which must end on a character
    /// boundary.
    pub fn consume(&mut self, bytes: usize)
        requires
            is_char_boundary(encode_utf8(old(self)@), bytes as int),
        ensures
            final(self)@ == decode_utf8(
                encode_utf8(old(self)@).subrange(bytes as int, encode_utf8(old(self)@).len() as int),
            ),
    {
        let (_, rest) = self.inner.split_at(bytes);
        proof {
            encode_utf8_decode_utf8(rest@);
        }
        self.inner = rest;
    }

    /// Returns the text that is left to parse.
    pub fn as_str(&self) -> (r: &'a str)
        ensures
            r@ == self@,
    {
        self.inner
    }

    /// Returns the next token without advancing.
    pub fn peek(&self) -> (r: Option<Token<'a>>)
        requires
            count_fits(self@),
        ensures
            match first_token(self@) {
                None => r is None,
                Some((t, n)) => r matches Some(tok) && tok@ == t,
            },
    {
        let mut copy = *self;
        copy.next()
    }

    /// Returns true if there are no tokens to process.
    pub fn is_empty(&self) -> (r: bool)
        ensures
            r == (self@.len() == 0),
    {
        self.inner.is_empty()
    }

    /// Word characters: everything but whitespace, zero-width space and soft hyphen, except
    /// that a non-breaking space belongs to the word.
    pub fn is_word_char(c: char) -> (r: bool)
        ensures
            r == spec_is_word_char(c),
    {
        is_word_char(c)
    }

    /// '\u{200B}' (zero-width space) breaks whitespace sequences; this works as long as space
    /// handling is symmetrical (starting and ending behaviour are the same).
    pub fn is_space_char(c: char) -> (r: bool)
        ensures
            r == spec_is_space_char(c),
    {
        (is_whitespace(c) && c != '\n' && c != '\r' && c != SPEC_CHAR_NBSP) || c == SPEC_CHAR_ZWSP
    }

    /// Returns the next token and advances past it; `None` when the text is exhausted.
    pub fn next(&mut self) -> (r: Option<Token<'a>>)
        requires
            count_fits(old(self)@),
        ensures
            match first_token(old(self)@) {
                None => r is None && final(self)@ == old(self)@,
                Some((t, n)) => r matches Some(tok) && tok@ == t && final(self)@ == old(self)@.skip(
                    n as int,
                ),
            },
    {
        let string = self.inner;
        let len = string.unicode_len();
        if len == 0 {
            return None;
        }
        let c = string.get_char(0);
        if Self::is_word_char(c) {
            let mut i: usize = 1;
            while i < len && Self::is_word_char(string.get_char(i))
                invariant
                    1 <= i <= len,
                    len == string@.len(),
                    forall|j: int| 0 <= j < i ==> spec_is_word_char(#[trigger] string@[j]),
                decreases len - i,
            {
                i += 1;
            }
            proof {
                lemma_prefix_run(string@, |c: char| spec_is_word_char(c), i as int);
            }
            self.inner = string.substring_char(i, len);
            assert(self.inner@ =~= string@.skip(i as int));
            let word = string.substring_char(0, i);
            assert(word@ =~= string@.take(i as int));
            Some(Token::Word(word))
        } else {
            self.inner = string.substring_char(1, len);
            assert(self.inner@ =~= string@.skip(1));
            if c == '\n' {
                Some(Token::NewLine)
            } else if c == '\r' {
                Some(Token::CarriageReturn)
            } else if c == SPEC_CHAR_ZWSP {
                Some(Token::Break(None))
            } else if c == SPEC_CHAR_SHY {
                Some(Token::Break(Some('-')))
            } else {
                let mut count: u32 = 1;
                let mut i: usize = 1;
                let ghost n = whitespace_len(string@) as int;
                proof {
                    lemma_prefix_run_bounds(string@.drop_first(), |c: char| spec_is_space_char(c));
                }
                while i < len && Self::is_space_char(string.get_char(i))
                    invariant
                        1 <= i <= len,
                        len == string@.len(),
                        n == whitespace_len(string@),
                        1 <= n <= len,
                        1 + counted_spaces(string@.subrange(1, n)) <= u32::MAX,
                        forall|j: int| 1 <= j < i ==> spec_is_space_char(#[trigger] string@[j]),
                        count == 1 + counted_spaces(string@.subrange(1, i as int)),
                    decreases len - i,
                {
                    let d = string.get_char(i);
                    proof {
                        assert(string@.subrange(1, i + 1).drop_last() =~= string@.subrange(
                            1,
                            i as int,
                        ));
                        let rest = string@.drop_first();
                        let p = |c: char| spec_is_space_char(c);
                        lemma_prefix_run_bounds(rest, p);
                        if prefix_run(rest, p) < i {
                            let r = prefix_run(rest, p) as int;
                            assert(rest[r] == string@[r + 1]);
                            assert(spec_is_space_char(string@[r + 1]));
                        }
                        assert(string@.subrange(1, n).take(i as int) =~= string@.subrange(1, i + 1));
                        lemma_counted_spaces_prefix(string@.subrange(1, n), i as int);
                    }
                    if d != SPEC_CHAR_ZWSP {
                        count += 1;
                    }
                    i += 1;
                }
                proof {
                    let rest = string@.drop_first();
                    assert forall|j: int| 0 <= j < i - 1 implies spec_is_space_char(
                        #[trigger] rest[j],
                    ) by {
                        assert(rest[j] == string@[j + 1]);
                    }
                    if i < len {
                        assert(rest[i - 1] == string@[i as int]);
                    }
                    lemma_prefix_run(rest, |c: char| spec_is_space_char(c), i - 1);
                }
                self.inner = string.substring_char(i, len);
                assert(self.inner@ =~= string@.skip(i as int));
                Some(Token::Whitespace(count))
            }
        }
    }
}

} // verus!
