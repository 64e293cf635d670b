//! In-band text styling using ANSI escape codes.
//!
//! A subset of the standard ANSI escape codes can be used *in the text* to change the style of
//! the text itself. All escape sequences start with the `\x1b[` sequence, where `\x1b` is the
//! ASCII `escape` character. Supported are a subset of the `SGR` parameters (see
//! [`utils::try_parse_sgr`]) and moving the cursor forward (`\x1b[<n>C`) or backward
//! (`\x1b[<n>D`).
//!
//! If an escape sequence cannot be parsed, the `\x1b` character is kept as a word of its own
//! and the rest is displayed as normal text.
use vstd::prelude::*;

use ansi_parser::AnsiSequence;

use crate::alignment::Cursor;
use crate::color::{spec_palette_color, spec_standard_color, Rgb};
use crate::parser::chars::{lemma_prefix_run, prefix_run, SPEC_CHAR_ESCAPE};
use crate::parser::{counts_fit, first_token, ChangeTextStyle, DecorationColor, lemma_counts_fit, lemma_first_token_len, opt_view, Parser, Token, TokenView};
use crate::plugin::ansi::utils::{spec_sgr, spec_sgr_style, try_parse_sgr};
use crate::plugin::{Plugin, TextBoxProperties};

pub mod utils;

verus! {

/// An escape sequence as the outside ANSI parser reports it, with the parameters taken as a
/// sequence.
pub enum AnsiCommand {
    /// Move the cursor forward.
    CursorForward(u32),
    /// Move the cursor backward.
    CursorBackward(u32),
    /// Set graphics mode, with its parameters.
    SetGraphicsMode(Seq<u8>),
    /// Any other escape sequence.
    Other,
}

/// An escape sequence as the outside ANSI parser reports it.
pub enum EscapeCode {
    /// Move the cursor forward.
    CursorForward(u32),
    /// Move the cursor backward.
    CursorBackward(u32),
    /// Set graphics mode, with its parameters.
    SetGraphicsMode(Vec<u8>),
    /// Any other escape sequence.
    Other,
}

impl View for EscapeCode {
    type V = AnsiCommand;

    open spec fn view(&self) -> AnsiCommand {
        match self {
            EscapeCode::CursorForward(n) => AnsiCommand::CursorForward(*n),
            EscapeCode::CursorBackward(n) => AnsiCommand::CursorBackward(*n),
            EscapeCode::SetGraphicsMode(v) => AnsiCommand::SetGraphicsMode(v@),
            EscapeCode::Other => AnsiCommand::Other,
        }
    }
}

/// What `ansi_parser::parse_escape` makes of a text: the text after the escape sequence at its
/// start and the sequence, or `None` when the text does not start with an escape sequence.
pub uninterp spec fn ansi_escape(text: Seq<char>) -> Option<(Seq<char>, AnsiCommand)>;

/// Calls `ansi_parser::parse_escape`, which parses the escape sequence (the escape character
/// and what follows it) at the start of `text` and returns the rest of the text with the
/// sequence; a parse error becomes `None`, and every sequence but the cursor moves and the
/// graphics mode is reported as `Other`. The contract names the result, a function of `text`
/// alone, and states that the rest is what follows the sequence in `text`: the parser starts
/// by matching the escape character, so the rest is shorter. Which texts parse, and to what,
/// is not stated.
#[verifier::external_body]
fn parse_escape<'s>(text: &'s str) -> (r: Option<(&'s str, EscapeCode)>)
    ensures
        match ansi_escape(text@) {
            None => r is None,
            Some((rest, command)) => r matches Some((s, code)) && s@ == rest && code@ == command
                && s@.len() < text@.len() && s@ == text@.skip(text@.len() - s@.len()),
        },
{
    match ansi_parser::parse_escape(text) {
        Ok((rest, AnsiSequence::CursorForward(n))) => Some((rest, EscapeCode::CursorForward(n))),
        Ok((rest, AnsiSequence::CursorBackward(n))) => Some((rest, EscapeCode::CursorBackward(n))),
        Ok((rest, AnsiSequence::SetGraphicsMode(v))) => Some(
            (rest, EscapeCode::SetGraphicsMode(v.to_vec())),
        ),
        Ok((rest, _)) => Some((rest, EscapeCode::Other)),
        Err(_) => None,
    }
}

/// Ansi sequence parser plugin.
pub struct Ansi<'a, C> {
    carry: Option<Token<'a, C>>,
}

impl<'a, C> Clone for Ansi<'a, C> where C: Copy {
    fn clone(&self) -> (r: Self) {
        Ansi { carry: self.carry }
    }
}

impl<'a, C> Ansi<'a, C> {
    /// Returns a new plugin object.
    pub fn new() -> (r: Self)
        ensures
            r.carried() is None,
    {
        Self { carry: None }
    }

    /// The token that was split off a word and is returned next.
    pub closed spec fn carried(&self) -> Option<TokenView<C>> {
        match self.carry {
            Some(t) => Some(t@),
            None => None,
        }
    }
}

/// The index of the first escape character in `text`, or its length if there is none.
pub open spec fn escape_index(text: Seq<char>) -> nat {
    prefix_run(text, |c: char| c != SPEC_CHAR_ESCAPE)
}

/// The cursor movement of a backward move by `n` characters: the negated count, where a count
/// of 2147483648 stays `i32::MIN` (two's complement negation).
pub open spec fn backward_chars(n: u32) -> i32 {
    if n as i32 == i32::MIN {
        i32::MIN
    } else {
        (-(n as i32)) as i32
    }
}

/// The token an escape sequence stands for: a cursor movement, or the style change of a
/// supported SGR sequence. Other sequences are not supported and stand for no token.
pub open spec fn command_token(command: AnsiCommand) -> Option<TokenView<Rgb>> {
    match command {
        AnsiCommand::CursorForward(n) => Some(
            TokenView::MoveCursor { chars: n as i32, draw_background: true },
        ),
        AnsiCommand::CursorBackward(n) => Some(
            TokenView::MoveCursor { chars: backward_chars(n), draw_background: true },
        ),
        AnsiCommand::SetGraphicsMode(v) => match spec_sgr(v) {
            Some(sgr) => Some(TokenView::ChangeTextStyle(spec_sgr_style(sgr))),
            None => None,
        },
        AnsiCommand::Other => None,
    }
}

/// How much work a carried token still holds: a carried word counts its characters.
pub open spec fn carry_size(carry: Option<TokenView<Rgb>>) -> nat {
    match carry {
        Some(TokenView::Word(text)) => text.len() + 1,
        Some(_) => 1,
        None => 0,
    }
}

/// The next token of the Ansi plugin, the token it carries afterwards and the text left in
/// the source, given the carried token and the source text.
///
/// A carried token comes first, otherwise the next token of the source. A word that holds an
/// escape character is split before it; a word that starts with a cursor movement or a
/// supported SGR sequence is turned into that command, and the rest of the word is carried.
/// An escape sequence that is not supported is skipped and the rest of its word is shown as
/// normal text. If no escape sequence can be parsed, the escape character is returned as a
/// word of its own.
pub open spec fn ansi_next(carry: Option<TokenView<Rgb>>, src: Seq<char>) -> (
    Option<TokenView<Rgb>>,
    Option<TokenView<Rgb>>,
    Seq<char>,
)
    decreases src.len(), carry_size(carry),
{
    proof {
        lemma_first_token_len::<Rgb>(src);
    }
    let (token, src1) = match carry {
        Some(t) => (Some(t), src),
        None => match first_token::<Rgb>(src) {
            None => (None, src),
            Some((t, n)) => (Some(t), src.skip(n as int)),
        },
    };
    if let Some(TokenView::Word(text)) = token {
        let idx = escape_index(text);
        if idx == text.len() {
            (Some(TokenView::Word(text)), None, src1)
        } else if idx > 0 {
            (
                Some(TokenView::Word(text.take(idx as int))),
                Some(TokenView::Word(text.skip(idx as int))),
                src1,
            )
        } else {
            match ansi_escape(text) {
                None => (
                    Some(TokenView::Word(seq![SPEC_CHAR_ESCAPE])),
                    Some(TokenView::Word(text.drop_first())),
                    src1,
                ),
                Some((rest, command)) => match command_token(command) {
                    Some(t) => (Some(t), Some(TokenView::Word(rest)), src1),
                    None => if rest.len() < text.len() {
                        ansi_next(Some(TokenView::Word(rest)), src1)
                    } else {
                        // Not reached: the outside parser always consumes the escape character.
                        (None, None, src1)
                    },
                },
            }
        }
    } else {
        (token, None, src1)
    }
}

/// Text without escape characters passes the Ansi plugin unchanged: when nothing is carried,
/// the plugin returns the parser's next token and reads exactly what the parser reads.
pub proof fn law_ansi_passes_plain_tokens(src: Seq<char>)
    requires
        forall|i: int| 0 <= i < src.len() ==> src[i] != SPEC_CHAR_ESCAPE,
    ensures
        match first_token::<Rgb>(src) {
            None => ansi_next(None, src) == (
                Option::<TokenView<Rgb>>::None,
                Option::<TokenView<Rgb>>::None,
                src,
            ),
            Some((t, n)) => ansi_next(None, src) == (
                Some(t),
                Option::<TokenView<Rgb>>::None,
                src.skip(n as int),
            ),
        },
{
    lemma_first_token_len::<Rgb>(src);
    if let Some((TokenView::Word(text), n)) = first_token::<Rgb>(src) {
        assert forall|j: int| 0 <= j < text.len() implies #[trigger] text[j] != SPEC_CHAR_ESCAPE by {
            assert(text[j] == src[j]);
        }
        lemma_prefix_run(text, |c: char| c != SPEC_CHAR_ESCAPE, text.len() as int);
    }
}

/// A word that starts with an escape character that does not begin an escape sequence is
/// shown as it is: the escape character becomes a word of its own and the rest is carried.
pub proof fn law_ansi_keeps_unparsable_escape(text: Seq<char>, src: Seq<char>)
    requires
        text.len() > 0,
        text[0] == SPEC_CHAR_ESCAPE,
        ansi_escape(text) is None,
    ensures
        ansi_next(Some(TokenView::Word(text)), src) == (
            Some(TokenView::<Rgb>::Word(seq![SPEC_CHAR_ESCAPE])),
            Some(TokenView::<Rgb>::Word(text.drop_first())),
            src,
        ),
{
    assert(escape_index(text) == 0);
}

/// An escape sequence that the plugin does not support is skipped and the rest of its word is
/// shown as normal text: the plugin goes on as if the word had started after the sequence.
pub proof fn law_ansi_skips_unsupported_sequence(text: Seq<char>, src: Seq<char>)
    requires
        text.len() > 0,
        text[0] == SPEC_CHAR_ESCAPE,
        ansi_escape(text) matches Some((rest, command)) && command_token(command) is None
            && rest.len() < text.len(),
    ensures
        ansi_next(Some(TokenView::Word(text)), src) == ansi_next(
            Some(TokenView::Word(ansi_escape(text).unwrap().0)),
            src,
        ),
{
    assert(escape_index(text) == 0);
}

/// Each supported SGR code changes the style attribute that the documentation names for it:
/// `0` resets everything, `4`/`24` turn underlining on and off, `9`/`29` strikethrough, `39`
/// and `49` make the text and the background color transparent, `30`-`37` and `90`-`97` set
/// the text color to a standard color (bright for `9x`), `40`-`47` and `100`-`107` the
/// background color, and `38`/`48` followed by `5;<n>` or `2;<r>;<g>;<b>` set the text or
/// background color to a palette or 24 bit color. Every other code stands for no token.
pub proof fn law_sgr_codes_change_named_attribute(v: Seq<u8>)
    requires
        v.len() > 0,
    ensures
        ({
            let code = v[0];
            let t = command_token(AnsiCommand::SetGraphicsMode(v));
            let style = |c: ChangeTextStyle<Rgb>| Some(TokenView::<Rgb>::ChangeTextStyle(c));
            &&& code == 0 ==> t == style(ChangeTextStyle::Reset)
            &&& code == 4 ==> t == style(ChangeTextStyle::Underline(DecorationColor::TextColor))
            &&& code == 24 ==> t == style(ChangeTextStyle::Underline(DecorationColor::NoDecoration))
            &&& code == 9 ==> t == style(ChangeTextStyle::Strikethrough(DecorationColor::TextColor))
            &&& code == 29 ==> t == style(
                ChangeTextStyle::Strikethrough(DecorationColor::NoDecoration),
            )
            &&& code == 39 ==> t == style(ChangeTextStyle::TextColor(None))
            &&& code == 49 ==> t == style(ChangeTextStyle::BackgroundColor(None))
            &&& 30 <= code <= 37 ==> t == style(
                ChangeTextStyle::TextColor(Some(spec_standard_color((code - 30) as u8))),
            )
            &&& 90 <= code <= 97 ==> t == style(
                ChangeTextStyle::TextColor(Some(spec_standard_color((code - 90 + 8) as u8))),
            )
            &&& 40 <= code <= 47 ==> t == style(
                ChangeTextStyle::BackgroundColor(Some(spec_standard_color((code - 40) as u8))),
            )
            &&& 100 <= code <= 107 ==> t == style(
                ChangeTextStyle::BackgroundColor(Some(spec_standard_color((code - 100 + 8) as u8))),
            )
            &&& (code == 38 && v.len() >= 3 && v[1] == 5) ==> t == style(
                ChangeTextStyle::TextColor(Some(spec_palette_color(v[2]))),
            )
            &&& (code == 48 && v.len() >= 3 && v[1] == 5) ==> t == style(
                ChangeTextStyle::BackgroundColor(Some(spec_palette_color(v[2]))),
            )
            &&& (code == 38 && v.len() >= 5 && v[1] == 2) ==> t == style(
                ChangeTextStyle::TextColor(Some(Rgb { r: v[2], g: v[3], b: v[4] })),
            )
            &&& (code == 48 && v.len() >= 5 && v[1] == 2) ==> t == style(
                ChangeTextStyle::BackgroundColor(Some(Rgb { r: v[2], g: v[3], b: v[4] })),
            )
            &&& (code == 38 || code == 48) && !(v.len() >= 3 && v[1] == 5) && !(v.len() >= 5 && v[1]
                == 2) ==> t is None
            &&& !(code == 0 || code == 4 || code == 9 || code == 24 || code == 29 || (30 <= code
                <= 49) || (90 <= code <= 97) || (100 <= code <= 107)) ==> t is None
        }),
{
    let d = v.drop_first();
    if v.len() >= 3 {
        assert(d[0] == v[1] && d[1] == v[2]);
    }
    if v.len() >= 5 {
        assert(d[0] == v[1] && d[1] == v[2] && d[2] == v[3] && d[3] == v[4]);
    }
}

/// A cursor movement `\x1b[<n>C` moves the cursor forward by `n` characters and `\x1b[<n>D`
/// backward by `n` characters, drawing the background; a graphics mode with no parameters and
/// any other sequence stand for no token.
pub proof fn law_cursor_commands_move_by_their_count(n: u32)
    ensures
        n <= i32::MAX ==> command_token(AnsiCommand::CursorForward(n)) == Some(
            TokenView::<Rgb>::MoveCursor { chars: n as i32, draw_background: true },
        ),
        n <= i32::MAX ==> (command_token(AnsiCommand::CursorBackward(n)) matches Some(
            TokenView::<Rgb>::MoveCursor { chars, draw_background: true },
        ) && chars == -(n as int)),
        command_token(AnsiCommand::SetGraphicsMode(Seq::empty())) is None,
        command_token(AnsiCommand::Other) is None,
{
}

/// Returns the token that an escape sequence stands for, or `None` for a sequence that the
/// plugin does not support.
pub fn escape_token<'a>(code: &EscapeCode) -> (r: Option<Token<'a, Rgb>>)
    ensures
        opt_view(r) == command_token(code@),
{
    match code {
        EscapeCode::CursorForward(chars) => Some(
            Token::MoveCursor {
                chars: #[verifier::truncate] (*chars as i32),
                draw_background: true,
            },
        ),
        EscapeCode::CursorBackward(chars) => {
            let chars = #[verifier::truncate] (*chars as i32);
            let chars = if chars == i32::MIN {
                chars
            } else {
                -chars
            };
            Some(Token::MoveCursor { chars, draw_background: true })
        },
        EscapeCode::SetGraphicsMode(sgr) => match try_parse_sgr(sgr.as_slice()) {
            Some(sgr) => Some(Token::ChangeTextStyle(sgr.into())),
            None => None,
        },
        EscapeCode::Other => None,
    }
}

impl<'a> Ansi<'a, Rgb> {
    /// Returns the index of the first escape character of `text`, or its length.
    fn find_escape(text: &str) -> (r: usize)
        ensures
            r == escape_index(text@),
            r <= text@.len(),
    {
        let n = text.unicode_len();
        let mut i: usize = 0;
        while i < n && text.get_char(i) != SPEC_CHAR_ESCAPE
            invariant
                0 <= i <= n,
                n == text@.len(),
                forall|j: int| 0 <= j < i ==> #[trigger] text@[j] != SPEC_CHAR_ESCAPE,
            decreases n - i,
        {
            i += 1;
        }
        proof {
            lemma_prefix_run(text@, |c: char| c != SPEC_CHAR_ESCAPE, i as int);
        }
        i
    }

    /// Returns the next token, splitting words at escape sequences and turning the sequences
    /// into commands.
    fn next_ansi_token(&mut self, source: &mut Parser<'a, Rgb>) -> (r: Option<Token<'a, Rgb>>)
        requires
            counts_fit::<Rgb>(old(source)@),
        ensures
            ({
                let (token, carry, src) = ansi_next(old(self).carried(), old(source)@);
                &&& opt_view(r) == token
                &&& final(self).carried() == carry
                &&& final(source)@ == src
            }),
        decreases old(source)@.len(), carry_size(old(self).carried()),
    {
        proof {
            lemma_first_token_len::<Rgb>(old(source)@);
            lemma_counts_fit::<Rgb>(old(source)@, 0);
            if let Some((_, n)) = first_token::<Rgb>(old(source)@) {
                lemma_counts_fit::<Rgb>(old(source)@, n as int);
            }
        }
        let token = if let Some(token) = self.carry.take() {
            Some(token)
        } else {
            source.next()
        };

        if let Some(Token::Word(text)) = token {
            let len = text.unicode_len();
            let idx = Self::find_escape(text);
            if idx == len {
                // No escape character.
                Some(Token::Word(text))
            } else if idx > 0 {
                // Escape character is not the first one. Strip and return the prefix.
                let pre = text.substring_char(0, idx);
                let rem = text.substring_char(idx, len);
                assert(pre@ =~= text@.take(idx as int));
                assert(rem@ =~= text@.skip(idx as int));
                self.carry = Some(Token::Word(rem));
                Some(Token::Word(pre))
            } else {
                match parse_escape(text) {
                    Some((string, code)) => match escape_token(&code) {
                        Some(token) => {
                            self.carry = Some(Token::Word(string));
                            Some(token)
                        },
                        None => {
                            // Not supported: skip the sequence, show the rest as normal text.
                            self.carry = Some(Token::Word(string));
                            self.next_ansi_token(source)
                        },
                    },
                    None => {
                        let rest = text.substring_char(1, len);
                        assert(rest@ =~= text@.drop_first());
                        self.carry = Some(Token::Word(rest));
                        let escape = "\u{1b}";
                        proof {
                            reveal_strlit("\u{1b}");
                        }
                        assert(escape@ =~= seq![SPEC_CHAR_ESCAPE]);
                        Some(Token::Word(escape))
                    },
                }
            }
        } else {
            // Not a word token.
            token
        }
    }
}

impl<'a> Plugin<'a, Rgb> for Ansi<'a, Rgb> {
    open spec fn can_start_render(&self, cursor: Cursor, props: TextBoxProperties) -> bool {
        true
    }

    /// A new line leaves the plugin as it is, and so what it carries.
    open spec fn starts_line(&self, after: Self) -> bool {
        after == *self
    }

    /// Finishing rendering leaves the plugin as it is, and so what it carries.
    open spec fn finishes_rendering(&self, after: Self) -> bool {
        after == *self
    }

    /// The next token is the one `ansi_next` makes of the carried token and the source.
    open spec fn next_spec(
        &self,
        src: Seq<char>,
        token: Option<TokenView<Rgb>>,
        after: Self,
        rest: Seq<char>,
    ) -> bool {
        let (t, carry, s) = ansi_next(self.carried(), src);
        &&& token == t
        &&& after.carried() == carry
        &&& rest == s
    }

    /// The token is returned unchanged and the plugin keeps what it carries.
    open spec fn render_spec(&self, token: TokenView<Rgb>, result: Option<TokenView<Rgb>>, after: Self) -> bool {
        result == Some(token) && after.carried() == self.carried()
    }

    /// The cursor stays where it is and the plugin keeps what it carries.
    open spec fn start_render_spec(
        &self,
        cursor: Cursor,
        props: TextBoxProperties,
        cursor_after: Cursor,
        after: Self,
    ) -> bool {
        cursor_after == cursor && after.carried() == self.carried()
    }

    fn new_line(&mut self) {
    }

    fn on_rendering_finished(&mut self) {
    }

    fn next_token(&mut self, source: &mut Parser<'a, Rgb>) -> (r: Option<Token<'a, Rgb>>)
        ensures
            ({
                let (token, carry, src) = ansi_next(old(self).carried(), old(source)@);
                &&& opt_view(r) == token
                &&& final(self).carried() == carry
                &&& final(source)@ == src
            }),
    {
        self.next_ansi_token(source)
    }

    /// Returns the token unchanged.
    fn render_token(&mut self, token: Token<'a, Rgb>) -> (r: Option<Token<'a, Rgb>>)
        ensures
            r == Some(token),
            final(self).carried() == old(self).carried(),
    {
        Some(token)
    }

    /// Leaves the cursor where it is.
    fn on_start_render(&mut self, cursor: &mut Cursor, props: &TextBoxProperties)
        ensures
            *final(cursor) == *old(cursor),
            final(self).carried() == old(self).carried(),
    {
    }
}

} // verus!
