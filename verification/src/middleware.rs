//! Middleware allow changing TextBox behaviour.
use vstd::prelude::*;

use core::marker::PhantomData;

use vstd::utf8::{decode_utf8, encode_utf8, is_char_boundary};

use crate::parser::ansi::is_suffix;
use crate::parser::encoding::{lemma_decode_after_prefix, lemma_encode_concat};
use crate::plain_parser::{counts_fit, first_token, lemma_counts_fit, lemma_first_token_len, opt_view, parser_next, Parser, Token, TokenView};
use crate::plugin::ProcessingState;

verus! {

/// Middleware trait: a middleware transforms the token stream of a text box.
///
/// Each middleware states what its methods do in the spec functions of this trait, so the
/// methods have no default bodies.
pub trait Middleware<'a, C>: Clone {
    /// Whether the middleware may be in state `after` once a new line was started in this
    /// state.
    spec fn starts_line(&self, after: Self) -> bool;

    /// Whether `next_token`, called in this state on a source with text `src`, may return
    /// `token`, leave the middleware in state `after` and the source with text `rest`.
    spec fn next_spec(&self, src: Seq<char>, token: Option<TokenView>, after: Self, rest: Seq<char>) -> bool;

    /// Whether `render_token`, called in this state on `token`, may return `result` and leave
    /// the middleware in state `after`.
    spec fn render_spec(&self, token: TokenView, result: Option<TokenView>, after: Self) -> bool;

    /// Called when a new line is started.
    fn new_line(&mut self)
        ensures
            old(self).starts_line(*final(self)),
    ;

    /// Generates the next token from the tokens of `next_token`; the middleware may only
    /// consume text from the start of the source.
    fn next_token(&mut self, next_token: &mut Parser<'a>) -> (r: Option<Token<'a>>)
        requires
            counts_fit(old(next_token)@),
        ensures
            is_suffix(final(next_token)@, old(next_token)@),
            old(self).next_spec(old(next_token)@, opt_view(r), *final(self), final(next_token)@),
    ;

    /// Modifies the current token immediately before it is rendered.
    fn render_token(&mut self, token: Token<'a>) -> (r: Option<Token<'a>>)
        ensures
            old(self).render_spec(token@, opt_view(r), *final(self)),
    ;
}

/// Placeholder type when no middleware is used.
pub struct NoMiddleware<C>(PhantomData<C>);

impl<C> Clone for NoMiddleware<C> {
    fn clone(&self) -> (r: Self) {
        NoMiddleware(PhantomData)
    }
}

impl<C> Copy for NoMiddleware<C> {

}

impl<C> Default for NoMiddleware<C> {
    fn default() -> (r: Self)
        ensures
            r == NoMiddleware::<C>::placeholder(),
    {
        NoMiddleware(PhantomData)
    }
}

impl<C> NoMiddleware<C> {
    /// The placeholder value: it holds nothing.
    pub closed spec fn placeholder() -> Self {
        NoMiddleware(PhantomData)
    }

    /// Creates the placeholder middleware, the same value as `default` gives.
    pub fn new() -> (r: Self)
        ensures
            r == NoMiddleware::<C>::placeholder(),
    {
        Self(PhantomData)
    }
}

impl<'a, C> Middleware<'a, C> for NoMiddleware<C> {
    /// Starting a line leaves the placeholder as it is.
    open spec fn starts_line(&self, after: Self) -> bool {
        after == *self
    }

    /// The placeholder returns the parser's next token.
    open spec fn next_spec(&self, src: Seq<char>, token: Option<TokenView>, after: Self, rest: Seq<char>) -> bool {
        parser_next(src, token, rest) && after == *self
    }

    /// The placeholder returns the token unchanged.
    open spec fn render_spec(&self, token: TokenView, result: Option<TokenView>, after: Self) -> bool {
        result == Some(token) && after == *self
    }

    fn new_line(&mut self) {
    }

    /// Returns the parser's next token.
    fn next_token(&mut self, next_token: &mut Parser<'a>) -> (r: Option<Token<'a>>)
        ensures
            match first_token(old(next_token)@) {
                None => r is None && final(next_token)@ == old(next_token)@,
                Some((t, n)) => r matches Some(tok) && tok@ == t && final(next_token)@ == old(
                    next_token,
                )@.skip(n as int),
            },
    {
        proof {
            lemma_counts_fit(next_token@, 0);
            lemma_first_token_len(next_token@);
            if let Some((_, n)) = first_token(next_token@) {
                assert(next_token@.skip(n as int) =~= next_token@.skip(
                    next_token@.len() - (next_token@.len() - n),
                ));
            } else {
                assert(next_token@ =~= next_token@.skip(0));
            }
        }
        next_token.next()
    }

    /// Returns the token unchanged.
    fn render_token(&mut self, token: Token<'a>) -> (r: Option<Token<'a>>)
        ensures
            r == Some(token),
    {
        Some(token)
    }
}

/// A middleware with a lookahead copy of it, the processing state and the token that was
/// looked at but not consumed yet.
pub struct MiddlewareWrapper<'a, M, C> {
    /// The copy of the middleware that produces the peeked tokens.
    pub lookahead: M,
    /// The middleware, in the state after the last consumed token.
    pub middleware: M,
    /// Whether the text is measured or rendered.
    pub state: ProcessingState,
    /// The byte length and the token returned by the last `peek_token` that was not consumed
    /// yet.
    pub peeked_token: (usize, Option<Token<'a>>),
    /// The color type of the text.
    pub _marker: PhantomData<C>,
}

/// The number of bytes of `src` that were read when `rest` is left: the UTF-8 length of the
/// characters before `rest`.
pub open spec fn read_len(src: Seq<char>, rest: Seq<char>) -> int {
    encode_utf8(src.take(src.len() - rest.len())).len() as int
}

/// `len` bytes of the UTF-8 encoding of `s` hold a whole number of its characters.
pub open spec fn is_char_prefix_len(s: Seq<char>, len: usize) -> bool {
    exists|k: int| 0 <= k <= s.len() && len == encode_utf8(#[trigger] s.take(k)).len()
}

impl<'a, M: Middleware<'a, C>, C> MiddlewareWrapper<'a, M, C> {
    /// Wraps a middleware; the text starts out being measured and nothing is peeked.
    pub fn new(middleware: M) -> (r: Self)
        ensures
            r.middleware == middleware,
            cloned(middleware, r.lookahead),
            r.state == ProcessingState::Measure,
            r.peeked_token == (0usize, Option::<Token<'a>>::None),
    {
        Self {
            _marker: PhantomData,
            lookahead: middleware.clone(),
            middleware,
            state: ProcessingState::Measure,
            peeked_token: (0, None),
        }
    }

    /// Tells the middleware that a new line is started, forgets the peeked token and restarts
    /// the lookahead from the middleware.
    pub fn new_line(&mut self)
        ensures
            final(self).peeked_token == (0usize, Option::<Token<'a>>::None),
            final(self).state == old(self).state,
            old(self).middleware.starts_line(final(self).middleware),
            cloned(final(self).middleware, final(self).lookahead),
    {
        self.peeked_token = (0, None);
        self.middleware.new_line();

        self.lookahead = self.middleware.clone();
    }

    /// Switches between measuring and rendering.
    pub fn set_state(&mut self, state: ProcessingState)
        ensures
            final(self).state == state,
            final(self).lookahead == old(self).lookahead,
            final(self).middleware == old(self).middleware,
            final(self).peeked_token == old(self).peeked_token,
    {
        self.state = state;
    }

    /// Lets the lookahead middleware modify a token before it is rendered; while measuring,
    /// the token is returned unchanged.
    pub fn render_token(&mut self, token: Token<'a>) -> (r: Option<Token<'a>>)
        ensures
            old(self).state == ProcessingState::Measure ==> r == Some(token) && final(self).lookahead
                == old(self).lookahead,
            old(self).state == ProcessingState::Render ==> old(self).lookahead.render_spec(
                token@,
                opt_view(r),
                final(self).lookahead,
            ),
            final(self).middleware == old(self).middleware,
            final(self).state == old(self).state,
            final(self).peeked_token == old(self).peeked_token,
    {
        match self.state {
            ProcessingState::Measure => Some(token),
            ProcessingState::Render => self.lookahead.render_token(token),
        }
    }

    /// Returns the next token without consuming it from `source`: the token peeked before if
    /// it was not consumed yet, otherwise the token the lookahead middleware makes of a copy of
    /// `source`, together with the number of bytes it read.
    pub fn peek_token(&mut self, source: &mut Parser<'a>) -> (r: Option<Token<'a>>)
        requires
            old(self).peeked_token.1 is None ==> counts_fit(old(source)@),
            encode_utf8(old(source)@).len() <= usize::MAX,
        ensures
            final(source)@ == old(source)@,
            old(self).peeked_token.1 is Some ==> r == old(self).peeked_token.1 && *final(self)
                == *old(self),
            final(self).peeked_token.1 == r,
            old(self).peeked_token.1 is None ==> exists|rest: Seq<char>|
                {
                    &&& is_suffix(rest, old(source)@)
                    &&& #[trigger] old(self).lookahead.next_spec(
                        old(source)@,
                        opt_view(r),
                        final(self).lookahead,
                        rest,
                    )
                    &&& final(self).peeked_token.0 == read_len(old(source)@, rest)
                },
            old(self).peeked_token.1 is None ==> is_char_prefix_len(
                old(source)@,
                final(self).peeked_token.0,
            ),
            final(self).middleware == old(self).middleware,
            final(self).state == old(self).state,
    {
        if self.peeked_token.1.is_none() {
            let mut cloned = *source;
            let ghost before = self.lookahead;
            let token = self.lookahead.next_token(&mut cloned);
            let ghost s = source@;
            let ghost k = s.len() - cloned@.len();
            proof {
                assert(cloned@ == s.skip(k));
                assert(s.take(k) + s.skip(k) =~= s);
                lemma_encode_concat(s.take(k), s.skip(k));
            }
            self.peeked_token.1 = token;
            self.peeked_token.0 = source.as_str().len() - cloned.as_str().len();
            assert(self.peeked_token.0 == encode_utf8(s.take(k)).len());
            assert(self.peeked_token.0 == read_len(s, cloned@));
            assert(before.next_spec(s, opt_view(token), self.lookahead, cloned@));
        }
        self.peeked_token.1
    }

    /// Consumes the peeked token from `source` and lets the middleware catch up with its
    /// lookahead copy.
    pub fn consume_peeked_token(&mut self, source: &mut Parser<'a>)
        requires
            is_char_boundary(encode_utf8(old(source)@), old(self).peeked_token.0 as int),
        ensures
            final(source)@ == decode_utf8(
                encode_utf8(old(source)@).subrange(
                    old(self).peeked_token.0 as int,
                    encode_utf8(old(source)@).len() as int,
                ),
            ),
            final(self).peeked_token == (0usize, Option::<Token<'a>>::None),
            cloned(old(self).lookahead, final(self).middleware),
            final(self).lookahead == old(self).lookahead,
            final(self).state == old(self).state,
    {
        source.consume(self.peeked_token.0);
        self.peeked_token.0 = 0;
        self.peeked_token.1 = None;

        self.middleware = self.lookahead.clone();
    }

    /// Replaces the peeked token by `token` spanning `len` bytes, and restarts the lookahead
    /// from the middleware.
    pub fn replace_peeked_token(&mut self, len: usize, token: Token<'a>)
        ensures
            final(self).peeked_token == (len, Some(token)),
            cloned(old(self).middleware, final(self).lookahead),
            final(self).middleware == old(self).middleware,
            final(self).state == old(self).state,
    {
        self.peeked_token.0 = len;
        self.peeked_token.1 = Some(token);

        self.lookahead = self.middleware.clone();
    }
}

/// Consuming a peeked token advances the source by exactly the characters that the lookahead
/// read: a byte length that covers the first `k` characters leaves the characters after them.
pub proof fn law_consume_after_peek(s: Seq<char>, k: int)
    requires
        0 <= k <= s.len(),
    ensures
        is_char_boundary(encode_utf8(s), encode_utf8(s.take(k)).len() as int),
        decode_utf8(
            encode_utf8(s).subrange(encode_utf8(s.take(k)).len() as int, encode_utf8(s).len() as int),
        ) == s.skip(k),
{
    lemma_decode_after_prefix(s, k);
}

/// Peeking with the placeholder middleware and then consuming the peeked token reads exactly
/// one token of the parser: the peeked token is the parser's next token, and the text left
/// after consuming the bytes that the peek read is the text after that token.
pub proof fn law_peek_then_consume_is_one_parser_step<C>(
    m: NoMiddleware<C>,
    src: Seq<char>,
    token: Option<TokenView>,
    after: NoMiddleware<C>,
    rest: Seq<char>,
)
    requires
        is_suffix(rest, src),
        <NoMiddleware<C> as Middleware<'static, C>>::next_spec(&m, src, token, after, rest),
    ensures
        is_char_boundary(encode_utf8(src), read_len(src, rest)),
        parser_next(
            src,
            token,
            decode_utf8(encode_utf8(src).subrange(read_len(src, rest), encode_utf8(src).len() as int)),
        ),
        after == m,
{
    lemma_decode_after_prefix(src, src.len() - rest.len());
}

} // verus!
