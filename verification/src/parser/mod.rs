//! Parse text into words, newlines, whitespace sequences and style changes.
use vstd::prelude::*;

use core::marker::PhantomData;


pub mod ansi;
pub mod chars;
pub mod encoding;

use crate::parser::chars::{
    is_space_char, is_word_char, lemma_prefix_run, lemma_prefix_run_bounds, prefix_run,
    spec_is_space_char, spec_is_word_char, SPEC_CHAR_SHY, SPEC_CHAR_ZWSP,
};

use vstd::utf8::{decode_utf8, encode_utf8, encode_utf8_decode_utf8, is_char_boundary};

verus! {

/// Color of a text decoration (underline or strikethrough).
#[derive(Copy, Clone, Debug, PartialEq, Eq, Hash)]
pub enum DecorationColor<C> {
    /// No decoration.
    NoDecoration,
    /// Decoration drawn with the text color.
    TextColor,
    /// Decoration drawn with a custom color.
    Custom(C),
}

/// Change text style.
#[derive(Copy, Clone, Debug, PartialEq, Eq, Hash)]
pub enum ChangeTextStyle<C> {
    /// Reset text style. Disables decoration, removes background color and sets a default text
    /// color.
    Reset,
    /// Change text color. `None` means transparent.
    TextColor(Option<C>),
    /// Change background color. `None` means transparent.
    BackgroundColor(Option<C>),
    /// Change color of underlining.
    Underline(DecorationColor<C>),
    /// Change color of strikethrough decoration.
    Strikethrough(DecorationColor<C>),
}

/// A text token.
#[derive(Copy, Clone, Debug, PartialEq)]
pub enum Token<'a, C> {
    /// A newline character.
    NewLine,
    /// A \r character.
    CarriageReturn,
    /// A \t character.
    Tab,
    /// A number of whitespace characters, and the text they were parsed from.
    Whitespace(u32, &'a str),
    /// A word (a sequence of non-whitespace characters).
    Word(&'a str),
    /// A possible wrapping point: the text to print if the line is wrapped here, and the text
    /// the token was parsed from.
    Break(&'a str, &'a str),
    /// Change of text style.
    ChangeTextStyle(ChangeTextStyle<C>),
    /// Move the cursor by a number of characters.
    MoveCursor {
        /// Number of characters to move.
        chars: i32,
        /// True to draw over the area of movement with the background color.
        draw_background: bool,
    },
}

/// A text token with its text taken as a character sequence.
pub enum TokenView<C> {
    /// A newline character.
    NewLine,
    /// A \r character.
    CarriageReturn,
    /// A \t character.
    Tab,
    /// A number of whitespace characters, and the text they were parsed from.
    Whitespace(u32, Seq<char>),
    /// A word.
    Word(Seq<char>),
    /// A possible wrapping point.
    Break(Seq<char>, Seq<char>),
    /// Change of text style.
    ChangeTextStyle(ChangeTextStyle<C>),
    /// Move the cursor by a number of characters.
    MoveCursor { chars: i32, draw_background: bool },
}

impl<'a, C> View for Token<'a, C> {
    type V = TokenView<C>;

    open spec fn view(&self) -> TokenView<C> {
        match *self {
            Token::NewLine => TokenView::NewLine,
            Token::CarriageReturn => TokenView::CarriageReturn,
            Token::Tab => TokenView::Tab,
            Token::Whitespace(n, s) => TokenView::Whitespace(n, s@),
            Token::Word(w) => TokenView::Word(w@),
            Token::Break(p, s) => TokenView::Break(p@, s@),
            Token::ChangeTextStyle(c) => TokenView::ChangeTextStyle(c),
            Token::MoveCursor { chars, draw_background } => TokenView::MoveCursor {
                chars,
                draw_background,
            },
        }
    }
}

/// Number of characters that a whitespace token counts: all but the zero-width spaces.
pub open spec fn counted_spaces(s: Seq<char>) -> nat
    decreases s.len(),
{
    if s.len() == 0 {
        0
    } else {
        counted_spaces(s.drop_last()) + if s.last() == SPEC_CHAR_ZWSP {
            0nat
        } else {
            1nat
        }
    }
}

/// Length of the word at the start of `s`.
pub open spec fn word_len(s: Seq<char>) -> nat {
    prefix_run(s, |c: char| spec_is_word_char(c))
}

/// Length of the whitespace sequence at the start of `s`, whose first character is a
/// whitespace character that starts a sequence.
pub open spec fn whitespace_len(s: Seq<char>) -> nat {
    1 + prefix_run(s.drop_first(), |c: char| spec_is_space_char(c))
}

/// Whether the parser's next call on text `src` returns `token` and leaves `rest`: the first
/// token of the text and the text after it, or `None` and the text unchanged when it is empty.
pub open spec fn parser_next<C>(src: Seq<char>, token: Option<TokenView<C>>, rest: Seq<char>) -> bool {
    match first_token::<C>(src) {
        None => token is None && rest == src,
        Some((t, n)) => token == Some(t) && rest == src.skip(n as int),
    }
}

/// The view of an optional token.
pub open spec fn opt_view<'a, C>(t: Option<Token<'a, C>>) -> Option<TokenView<C>> {
    match t {
        Some(t) => Some(t@),
        None => None,
    }
}

/// The first token of `s` and the number of characters it spans, or `None` for empty text.
pub open spec fn first_token<C>(s: Seq<char>) -> Option<(TokenView<C>, nat)> {
    if s.len() == 0 {
        None
    } else if spec_is_word_char(s[0]) {
        Some((TokenView::Word(s.take(word_len(s) as int)), word_len(s)))
    } else if s[0] == '\n' {
        Some((TokenView::NewLine, 1))
    } else if s[0] == '\r' {
        Some((TokenView::CarriageReturn, 1))
    } else if s[0] == '\t' {
        Some((TokenView::Tab, 1))
    } else if s[0] == SPEC_CHAR_ZWSP {
        Some((TokenView::Whitespace(0, s.take(1)), 1))
    } else if s[0] == SPEC_CHAR_SHY {
        Some((TokenView::Break(seq!['-'], s.take(1)), 1))
    } else {
        let n = whitespace_len(s);
        Some(
            (
                TokenView::Whitespace(
                    (1 + counted_spaces(s.subrange(1, n as int))) as u32,
                    s.take(n as int),
                ),
                n,
            ),
        )
    }
}

/// The parser's next token on `s` counts no more visible spaces than a `u32` holds: the
/// whitespace run at the start of `s`, if there is one, is short enough to be counted.
pub open spec fn count_fits<C>(s: Seq<char>) -> bool {
    first_token::<C>(s) matches Some((TokenView::Whitespace(_, _), n)) ==> 1 + counted_spaces(
        s.subrange(1, n as int),
    ) <= u32::MAX
}

/// Every whitespace run of `s` can be counted: the parser's next token counts no more visible
/// spaces than a `u32` holds, wherever in `s` it starts.
pub open spec fn counts_fit<C>(s: Seq<char>) -> bool {
    forall|i: int| 0 <= i <= s.len() ==> #[trigger] count_fits::<C>(s.skip(i))
}

/// What holds of a text whose whitespace runs can all be counted holds of its first token and
/// of each of its suffixes.
pub proof fn lemma_counts_fit<C>(s: Seq<char>, k: int)
    requires
        counts_fit::<C>(s),
        0 <= k <= s.len(),
    ensures
        count_fits::<C>(s),
        counts_fit::<C>(s.skip(k)),
{
    assert(s.skip(0) =~= s);
    assert forall|i: int| 0 <= i <= s.skip(k).len() implies #[trigger] count_fits::<C>(
        s.skip(k).skip(i),
    ) by {
        assert(s.skip(k).skip(i) =~= s.skip(k + i));
    }
}

/// Counting the spaces of a prefix counts no more than counting the whole text.
pub(crate) proof fn lemma_counted_spaces_prefix(s: Seq<char>, k: int)
    requires
        0 <= k <= s.len(),
    ensures
        counted_spaces(s.take(k)) <= counted_spaces(s),
    decreases s.len(),
{
    if k < s.len() {
        lemma_counted_spaces_prefix(s.drop_last(), k);
        assert(s.drop_last().take(k) =~= s.take(k));
    } else {
        assert(s.take(k) =~= s);
    }
}

/// The text a token was parsed from.
pub open spec fn source_text<C>(t: TokenView<C>) -> Seq<char> {
    match t {
        TokenView::NewLine => seq!['\n'],
        TokenView::CarriageReturn => seq!['\r'],
        TokenView::Tab => seq!['\t'],
        TokenView::Whitespace(_, s) => s,
        TokenView::Word(w) => w,
        TokenView::Break(_, s) => s,
        _ => Seq::empty(),
    }
}

/// The parser loses no text: each token is parsed from exactly the characters it spans, and
/// it spans at least one, so the tokens of a text, one after the other, spell the text.
pub proof fn law_tokens_spell_the_text<C>(s: Seq<char>)
    ensures
        first_token::<C>(s) matches Some((t, n)) ==> 1 <= n <= s.len() && source_text(t) == s.take(
            n as int,
        ),
{
    lemma_first_token_len::<C>(s);
    if s.len() > 0 {
        assert(s.take(1) =~= seq![s[0]]);
    }
}

/// The tokens the parser makes of `s`, one call of `next` after the other, until the text is
/// exhausted.
pub open spec fn all_tokens<C>(s: Seq<char>) -> Seq<TokenView<C>>
    decreases s.len(),
{
    proof {
        lemma_first_token_len::<C>(s);
    }
    match first_token::<C>(s) {
        None => Seq::empty(),
        Some((t, n)) => seq![t] + all_tokens::<C>(s.skip(n as int)),
    }
}

/// The texts of `tokens`, one after the other.
pub open spec fn spelled<C>(tokens: Seq<TokenView<C>>) -> Seq<char>
    decreases tokens.len(),
{
    if tokens.len() == 0 {
        Seq::empty()
    } else {
        source_text(tokens[0]) + spelled(tokens.drop_first())
    }
}

/// Whether a token is a word.
pub open spec fn is_word<C>(t: TokenView<C>) -> bool {
    t is Word
}

/// Over the whole text: the tokens spell the text, no style change or cursor move comes out
/// of the parser, words are maximal (no word follows a word), and every whitespace token holds
/// text and counts its characters but the zero-width spaces.
pub proof fn law_token_stream<C>(s: Seq<char>)
    requires
        counts_fit::<C>(s),
    ensures
        spelled(all_tokens::<C>(s)) == s,
        forall|i: int|
            0 <= i < all_tokens::<C>(s).len() ==> !(#[trigger] all_tokens::<C>(s)[i] is ChangeTextStyle)
                && !(all_tokens::<C>(s)[i] is MoveCursor),
        forall|i: int|
            0 <= i < all_tokens::<C>(s).len() - 1 ==> !(is_word(#[trigger] all_tokens::<C>(s)[i])
                && is_word(all_tokens::<C>(s)[i + 1])),
        forall|i: int|
            0 <= i < all_tokens::<C>(s).len() ==> (#[trigger] all_tokens::<C>(s)[i] matches TokenView::Whitespace(
                count,
                text,
            ) ==> text.len() > 0 && count == counted_spaces(text) && forall|j: int|
                0 <= j < text.len() ==> spec_is_space_char(#[trigger] text[j])),
        forall|i: int|
            0 <= i < all_tokens::<C>(s).len() ==> (#[trigger] all_tokens::<C>(s)[i] matches TokenView::Word(
                word,
            ) ==> word.len() > 0 && forall|j: int|
                0 <= j < word.len() ==> spec_is_word_char(#[trigger] word[j])),
    decreases s.len(),
{
    lemma_first_token_len::<C>(s);
    law_tokens_spell_the_text::<C>(s);
    lemma_counts_fit::<C>(s, 0);
    law_whitespace_counts_visible_spaces::<C>(s);
    if let Some((t, n)) = first_token::<C>(s) {
        let rest = s.skip(n as int);
        lemma_counts_fit::<C>(s, n as int);
        law_token_stream::<C>(rest);
        let ts = all_tokens::<C>(s);
        let tr = all_tokens::<C>(rest);
        assert(ts == seq![t] + tr);
        assert(ts.drop_first() =~= tr);
        assert(ts[0] == t);
        assert(s.take(n as int) + rest =~= s);
        assert forall|i: int| 0 < i < ts.len() implies #[trigger] ts[i] == tr[i - 1] by {}
        if is_word(t) && tr.len() > 0 {
            lemma_prefix_run_bounds(s, |c: char| spec_is_word_char(c));
            lemma_first_token_len::<C>(rest);
            assert(rest[0] == s[n as int]);
            assert(tr[0] == first_token::<C>(rest).unwrap().0);
        }
        assert forall|i: int| 0 <= i < ts.len() - 1 implies !(is_word(#[trigger] ts[i]) && is_word(
            ts[i + 1],
        )) by {
            if i > 0 {
                assert(ts[i] == tr[i - 1]);
                assert(ts[i + 1] == tr[i]);
            }
        }
        lemma_first_token_chars::<C>(s);
        assert forall|i: int| 0 <= i < ts.len() implies (#[trigger] ts[i] matches TokenView::Whitespace(
            count,
            text,
        ) ==> text.len() > 0 && count == counted_spaces(text) && forall|j: int|
            0 <= j < text.len() ==> spec_is_space_char(#[trigger] text[j])) by {
            if i == 0 {
                if t is Whitespace {
                    assert(source_text(t).len() == n);
                }
            } else {
                assert(ts[i] == tr[i - 1]);
            }
        }
        assert forall|i: int| 0 <= i < ts.len() implies (#[trigger] ts[i] matches TokenView::Word(
            word,
        ) ==> word.len() > 0 && forall|j: int|
            0 <= j < word.len() ==> spec_is_word_char(#[trigger] word[j])) by {
            if i > 0 {
                assert(ts[i] == tr[i - 1]);
            }
        }
    } else {
        assert(all_tokens::<C>(s) =~= Seq::<TokenView<C>>::empty());
    }
}

/// A word token holds at least one character, all of them word characters; a whitespace token
/// holds only space characters.
proof fn lemma_first_token_chars<C>(s: Seq<char>)
    ensures
        first_token::<C>(s) matches Some((TokenView::Word(w), _)) ==> w.len() > 0 && forall|j: int|
            0 <= j < w.len() ==> spec_is_word_char(#[trigger] w[j]),
        first_token::<C>(s) matches Some((TokenView::Whitespace(_, t), _)) ==> forall|j: int|
            0 <= j < t.len() ==> spec_is_space_char(#[trigger] t[j]),
{
    if s.len() > 0 {
        let rest = s.drop_first();
        lemma_prefix_run_bounds(s, |c: char| spec_is_word_char(c));
        lemma_prefix_run_bounds(rest, |c: char| spec_is_space_char(c));
        if !spec_is_word_char(s[0]) && s[0] != '\n' && s[0] != '\r' && s[0] != '\t' && s[0]
            != SPEC_CHAR_ZWSP && s[0] != SPEC_CHAR_SHY {
            let n = whitespace_len(s) as int;
            assert forall|j: int| 0 <= j < n implies spec_is_space_char(#[trigger] s.take(n)[j]) by {
                if j > 0 {
                    assert(s.take(n)[j] == rest[j - 1]);
                }
            }
        }
    }
}

/// A whitespace token counts its characters but the zero-width spaces.
pub proof fn law_whitespace_counts_visible_spaces<C>(s: Seq<char>)
    requires
        count_fits::<C>(s),
    ensures
        first_token::<C>(s) matches Some((TokenView::Whitespace(count, text), _)) ==> count
            == counted_spaces(text),
{
    lemma_first_token_len::<C>(s);
    if s.len() > 0 && !spec_is_word_char(s[0]) && s[0] != '\n' && s[0] != '\r' && s[0] != '\t' {
        if s[0] == SPEC_CHAR_ZWSP {
            assert(s.take(1).drop_last() =~= Seq::<char>::empty());
            assert(s.take(1).last() == SPEC_CHAR_ZWSP);
            assert(counted_spaces(Seq::<char>::empty()) == 0);
            assert(counted_spaces(s.take(1)) == 0);
        } else if s[0] != SPEC_CHAR_SHY {
            lemma_prefix_run_bounds(s.drop_first(), |c: char| spec_is_space_char(c));
            let n = whitespace_len(s) as int;
            lemma_counted_spaces_first(s.take(n));
            assert(s.take(n)[0] == s[0]);
            assert(s.take(n).drop_first() =~= s.subrange(1, n));
            assert(counted_spaces(s.take(n)) == 1 + counted_spaces(s.subrange(1, n)));
        }
    }
}

/// Counting the characters of a sequence: the first one, then the rest.
pub(crate) proof fn lemma_counted_spaces_first(s: Seq<char>)
    requires
        s.len() > 0,
    ensures
        counted_spaces(s) == counted_spaces(s.drop_first()) + if s[0] == SPEC_CHAR_ZWSP {
            0nat
        } else {
            1nat
        },
    decreases s.len(),
{
    if s.len() > 1 {
        lemma_counted_spaces_first(s.drop_last());
        assert(s.drop_last().drop_first() =~= s.drop_first().drop_last());
    } else {
        assert(s.drop_first() =~= Seq::<char>::empty());
        assert(s.drop_last() =~= Seq::<char>::empty());
    }
}

/// No more characters are counted than there are.
proof fn lemma_counted_spaces_bound(s: Seq<char>)
    ensures
        counted_spaces(s) <= s.len(),
    decreases s.len(),
{
    if s.len() > 0 {
        lemma_counted_spaces_bound(s.drop_last());
    }
}

/// A token spans at least one character, and no more than the text holds.
pub proof fn lemma_first_token_len<C>(s: Seq<char>)
    ensures
        first_token::<C>(s) matches Some((_, n)) ==> 1 <= n <= s.len(),
        first_token::<C>(s) is None <==> s.len() == 0,
{
    if s.len() > 0 {
        lemma_prefix_run_bounds(s, |c: char| spec_is_word_char(c));
        lemma_prefix_run_bounds(s.drop_first(), |c: char| spec_is_space_char(c));
    }
}

/// Text parser. Turns a string into a stream of [`Token`] objects.
#[derive(Debug)]
pub struct Parser<'a, C> {
    inner: &'a str,
    _marker: PhantomData<C>,
}

impl<'a, C> View for Parser<'a, C> {
    type V = Seq<char>;

    /// The text that is left to parse.
    closed spec fn view(&self) -> Seq<char> {
        self.inner@
    }
}

impl<'a, C> Clone for Parser<'a, C> {
    fn clone(&self) -> (r: Self)
        ensures
            r@ == self@,
    {
        Parser { inner: self.inner, _marker: PhantomData }
    }
}

impl<'a, C> Parser<'a, C> {
    /// Creates a new parser object to process the given piece of text.
    pub fn parse(text: &'a str) -> (r: Self)
        ensures
            r@ == text@,
    {
        Self { inner: text, _marker: PhantomData }
    }

    /// Skips the first `bytes` bytes of the UTF-8 encoded text, which must end on a character
    /// boundary.
    pub fn consume(&mut self, bytes: usize)
        requires
            is_char_boundary(encode_utf8(old(self)@), bytes as int),
        ensures
            final(self)@ == decode_utf8(
                encode_utf8(old(self)@).subrange(bytes as int, encode_utf8(old(self)@).len() as int),
            ),
    {
        let (_, rest) = self.inner.split_at(bytes);
        proof {
            encode_utf8_decode_utf8(rest@);
        }
        self.inner = rest;
    }

    /// Returns the text that is left to parse.
    pub fn as_str(&self) -> (r: &'a str)
        ensures
            r@ == self@,
    {
        self.inner
    }

    /// Returns the next token and advances past it; `None` when the text is exhausted.
    pub fn next(&mut self) -> (r: Option<Token<'a, C>>)
        requires
            count_fits::<C>(old(self)@),
        ensures
            match first_token::<C>(old(self)@) {
                None => r is None && final(self)@ == old(self)@,
                Some((t, n)) => r matches Some(tok) && tok@ == t && final(self)@ == old(self)@.skip(
                    n as int,
                ),
            },
    {
        let string = self.inner;
        let len = string.unicode_len();
        if len == 0 {
            return None;
        }
        let c = string.get_char(0);
        if is_word_char(c) {
            // find the longest consecutive slice of text for a Word token
            let mut i: usize = 1;
            while i < len && is_word_char(string.get_char(i))
                invariant
                    1 <= i <= len,
                    len == string@.len(),
                    forall|j: int| 0 <= j < i ==> spec_is_word_char(#[trigger] string@[j]),
                decreases len - i,
            {
                i += 1;
            }
            proof {
                lemma_prefix_run(string@, |c: char| spec_is_word_char(c), i as int);
            }
            self.inner = string.substring_char(i, len);
            assert(self.inner@ =~= string@.skip(i as int));
            let word = string.substring_char(0, i);
            assert(word@ =~= string@.take(i as int));
            Some(Token::Word(word))
        } else if c == '\n' {
            self.inner = string.substring_char(1, len);
            assert(self.inner@ =~= string@.skip(1));
            Some(Token::NewLine)
        } else if c == '\r' {
            self.inner = string.substring_char(1, len);
            assert(self.inner@ =~= string@.skip(1));
            Some(Token::CarriageReturn)
        } else if c == '\t' {
            self.inner = string.substring_char(1, len);
            assert(self.inner@ =~= string@.skip(1));
            Some(Token::Tab)
        } else if c == SPEC_CHAR_ZWSP {
            self.inner = string.substring_char(1, len);
            assert(self.inner@ =~= string@.skip(1));
            let zwsp = string.substring_char(0, 1);
            assert(zwsp@ =~= string@.take(1));
            Some(Token::Whitespace(0, zwsp))
        } else if c == SPEC_CHAR_SHY {
            self.inner = string.substring_char(1, len);
            assert(self.inner@ =~= string@.skip(1));
            // translate SHY to a printable character
            let hyphen = "-";
            proof {
                reveal_strlit("-");
            }
            let shy = string.substring_char(0, 1);
            assert(shy@ =~= string@.take(1));
            assert(hyphen@ =~= seq!['-']);
            Some(Token::Break(hyphen, shy))
        } else {
            // count consecutive whitespace
            let mut count: u32 = 1;
            let mut i: usize = 1;
            let ghost n = whitespace_len(string@) as int;
            proof {
                lemma_prefix_run_bounds(string@.drop_first(), |c: char| spec_is_space_char(c));
            }
            while i < len && is_space_char(string.get_char(i))
                invariant
                    1 <= i <= len,
                    len == string@.len(),
                    n == whitespace_len(string@),
                    1 <= n <= len,
                    1 + counted_spaces(string@.subrange(1, n)) <= u32::MAX,
                    forall|j: int| 1 <= j < i ==> spec_is_space_char(#[trigger] string@[j]),
                    count == 1 + counted_spaces(string@.subrange(1, i as int)),
                decreases len - i,
            {
                let d = string.get_char(i);
                proof {
                    assert(string@.subrange(1, i + 1).drop_last() =~= string@.subrange(1, i as int));
                    let rest = string@.drop_first();
                    let p = |c: char| spec_is_space_char(c);
                    lemma_prefix_run_bounds(rest, p);
                    if prefix_run(rest, p) < i {
                        let r = prefix_run(rest, p) as int;
                        assert(rest[r] == string@[r + 1]);
                        assert(spec_is_space_char(string@[r + 1]));
                    }
                    assert(string@.subrange(1, n).take(i as int) =~= string@.subrange(1, i + 1));
                    lemma_counted_spaces_prefix(string@.subrange(1, n), i as int);
                }
                if d != SPEC_CHAR_ZWSP {
                    count += 1;
                }
                i += 1;
            }
            proof {
                let rest = string@.drop_first();
                assert forall|j: int| 0 <= j < i - 1 implies spec_is_space_char(#[trigger] rest[j]) by {
                    assert(rest[j] == string@[j + 1]);
                }
                if i < len {
                    assert(rest[i - 1] == string@[i as int]);
                }
                lemma_prefix_run(rest, |c: char| spec_is_space_char(c), i - 1);
            }
            self.inner = string.substring_char(i, len);
            assert(self.inner@ =~= string@.skip(i as int));
            let spaces = string.substring_char(0, i);
            assert(spaces@ =~= string@.take(i as int));
            Some(Token::Whitespace(count, spaces))
        }
    }
}

} // verus!
