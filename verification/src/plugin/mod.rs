//! Plugins allow changing TextBox behaviour.
use vstd::prelude::*;

use core::marker::PhantomData;

use crate::alignment::Cursor;
use crate::parser::{counts_fit, opt_view, Parser, Token};

pub mod ansi;
pub mod private;
pub mod tail;

pub use private::Plugin;

verus! {

/// Whether the text is being measured or rendered.
#[derive(Copy, Clone, Debug, PartialEq, Eq, Hash, Structural)]
pub enum ProcessingState {
    /// Text is measured: plugins do not modify tokens.
    Measure,
    /// Text is rendered.
    Render,
}

/// Properties of the text box that plugins may read before rendering starts.
#[derive(Copy, Clone, Debug, PartialEq, Eq)]
pub struct TextBoxProperties {
    /// Height of the text box's bounding box in pixels.
    pub box_height: u32,
    /// Height of the text in pixels.
    pub text_height: i32,
}

/// Placeholder type when no plugin is used.
pub struct NoPlugin<C>(PhantomData<C>);

impl<C> Clone for NoPlugin<C> {
    fn clone(&self) -> (r: Self) {
        NoPlugin(PhantomData)
    }
}

impl<C> Copy for NoPlugin<C> {

}

impl<C> Default for NoPlugin<C> {
    fn default() -> (r: Self)
        ensures
            r == NoPlugin::<C>::placeholder(),
    {
        NoPlugin(PhantomData)
    }
}

impl<C> NoPlugin<C> {
    /// The placeholder value: it holds nothing.
    pub closed spec fn placeholder() -> Self {
        NoPlugin(PhantomData)
    }

    /// Creates the placeholder plugin, the same value as `default` gives.
    pub fn new() -> (r: Self)
        ensures
            r == NoPlugin::<C>::placeholder(),
    {
        Self(PhantomData)
    }
}

/// Plugin marker trait.
///
/// This trait is an implementation detail: every plugin implements it.
pub trait PluginMarker<'a, C>: Plugin<'a, C> {

}

impl<'a, C, T> PluginMarker<'a, C> for T where T: Plugin<'a, C> {

}

/// A plugin together with the processing state and the token that was looked at but not
/// consumed yet.
pub struct PluginWrapper<'a, M, C> {
    /// The wrapped plugin.
    pub plugin: M,
    /// Whether the text is measured or rendered.
    pub state: ProcessingState,
    /// The token returned by the last `peek_token` that was not consumed yet.
    pub peeked_token: Option<Token<'a, C>>,
}

impl<'a, M, C> PluginWrapper<'a, M, C> {
    /// Wraps a plugin; the text starts out being measured and nothing is peeked.
    pub fn new(plugin: M) -> (r: Self)
        ensures
            r.plugin == plugin,
            r.state == ProcessingState::Measure,
            r.peeked_token is None,
    {
        PluginWrapper { plugin, state: ProcessingState::Measure, peeked_token: None }
    }

    /// Unwraps the plugin.
    pub fn into_inner(self) -> (r: M)
        ensures
            r == self.plugin,
    {
        self.plugin
    }
}

impl<'a, M: Clone, C: Copy> Clone for PluginWrapper<'a, M, C> {
    /// Clones the plugin and copies the state and the peeked token.
    fn clone(&self) -> (r: Self)
        ensures
            cloned(self.plugin, r.plugin),
            r.state == self.state,
            r.peeked_token == self.peeked_token,
    {
        PluginWrapper {
            plugin: self.plugin.clone(),
            state: self.state,
            peeked_token: self.peeked_token,
        }
    }
}

/// `s` without its first `n` characters (all of them if there are fewer).
pub open spec fn skip_chars(s: Seq<char>, n: int) -> Seq<char> {
    if n < s.len() {
        s.skip(n)
    } else {
        Seq::empty()
    }
}

/// Consuming a word or a whitespace run in two parts leaves the same text as consuming both
/// parts at once.
pub proof fn law_consume_partial_composes(s: Seq<char>, a: int, b: int)
    requires
        0 <= a,
        0 <= b,
    ensures
        skip_chars(skip_chars(s, a), b) == skip_chars(s, a + b),
{
    if a + b < s.len() {
        assert(s.skip(a).skip(b) =~= s.skip(a + b));
    } else if a < s.len() {
        assert(skip_chars(s, a).len() == s.len() - a);
    }
}

/// A peeked token that can be consumed in part: a word, or whitespace whose count is at least
/// `len` taken as a `u32`.
pub open spec fn can_consume_partial<'a, C>(peeked: Option<Token<'a, C>>, len: usize) -> bool {
    match peeked {
        Some(Token::Whitespace(count, _)) => len as u32 <= count,
        Some(Token::Word(_)) => true,
        _ => false,
    }
}

/// Returns `s` without its first `n` characters.
fn skip_str_chars<'s>(s: &'s str, n: usize) -> (r: &'s str)
    ensures
        r@ == skip_chars(s@, n as int),
{
    let len = s.unicode_len();
    if n < len {
        let r = s.substring_char(n, len);
        assert(r@ =~= s@.skip(n as int));
        r
    } else {
        let r = s.substring_char(len, len);
        assert(r@ =~= Seq::<char>::empty());
        r
    }
}

impl<'a, M: Plugin<'a, C>, C: Copy> PluginWrapper<'a, M, C> {
    /// Tells the plugin that a new line is started.
    pub fn new_line(&mut self)
        ensures
            old(self).plugin.starts_line(final(self).plugin),
            final(self).state == old(self).state,
            final(self).peeked_token == old(self).peeked_token,
    {
        self.plugin.new_line();
    }

    /// Switches between measuring and rendering.
    pub fn set_state(&mut self, state: ProcessingState)
        ensures
            final(self).state == state,
            final(self).plugin == old(self).plugin,
            final(self).peeked_token == old(self).peeked_token,
    {
        self.state = state;
    }

    /// Lets the plugin modify a token before it is rendered; while measuring, the token is
    /// returned unchanged and the plugin is not asked.
    pub fn render_token(&mut self, token: Token<'a, C>) -> (r: Option<Token<'a, C>>)
        ensures
            old(self).state == ProcessingState::Measure ==> r == Some(token) && final(self).plugin
                == old(self).plugin,
            old(self).state == ProcessingState::Render ==> old(self).plugin.render_spec(
                token@,
                opt_view(r),
                final(self).plugin,
            ),
            final(self).state == old(self).state,
            final(self).peeked_token == old(self).peeked_token,
    {
        match self.state {
            ProcessingState::Measure => Some(token),
            ProcessingState::Render => self.plugin.render_token(token),
        }
    }

    /// Returns the next token without consuming it: the token peeked before if it was not
    /// consumed yet, otherwise the next token that the plugin makes of `source`.
    pub fn peek_token(&mut self, source: &mut Parser<'a, C>) -> (r: Option<Token<'a, C>>)
        requires
            old(self).peeked_token is None ==> counts_fit::<C>(old(source)@),
        ensures
            old(self).peeked_token is Some ==> r == old(self).peeked_token && *final(self) == *old(
                self,
            ) && final(source)@ == old(source)@,
            old(self).peeked_token is None ==> old(self).plugin.next_spec(
                old(source)@,
                opt_view(r),
                final(self).plugin,
                final(source)@,
            ),
            final(self).peeked_token == r,
            final(self).state == old(self).state,
    {
        if self.peeked_token.is_none() {
            self.peeked_token = self.plugin.next_token(source);
        }
        self.peeked_token
    }

    /// Marks the peeked token as consumed.
    pub fn consume_peeked_token(&mut self)
        ensures
            final(self).peeked_token is None,
            final(self).plugin == old(self).plugin,
            final(self).state == old(self).state,
    {
        self.peeked_token = None;
    }

    /// Consumes the first `len` characters of the peeked word or whitespace token. Only
    /// string-like tokens can be partially consumed.
    pub fn consume_partial(&mut self, len: usize)
        requires
            can_consume_partial(old(self).peeked_token, len),
        ensures
            final(self).plugin == old(self).plugin,
            final(self).state == old(self).state,
            match old(self).peeked_token {
                Some(Token::Whitespace(count, seq)) => final(self).peeked_token matches Some(
                    Token::Whitespace(c, rest),
                ) && c == count - (len as u32) && rest@ == skip_chars(seq@, len as int),
                Some(Token::Word(w)) => final(self).peeked_token matches Some(Token::Word(rest))
                    && rest@ == skip_chars(w@, len as int),
                _ => false,
            },
    {
        if let Some(token) = self.peeked_token.take() {
            let token = match token {
                Token::Whitespace(count, seq) => {
                    Token::Whitespace(count - len as u32, skip_str_chars(seq, len))
                },
                Token::Word(w) => Token::Word(skip_str_chars(w, len)),
                _ => return ,
            };

            self.peeked_token = Some(token);
        }
    }

    /// Forgets the peeked token and lets the plugin prepare for rendering.
    pub fn on_start_render(&mut self, cursor: &mut Cursor, props: TextBoxProperties)
        requires
            old(self).plugin.can_start_render(*old(cursor), props),
        ensures
            old(self).plugin.start_render_spec(*old(cursor), props, *final(cursor), final(self).plugin),
            final(self).peeked_token is None,
            final(self).state == old(self).state,
    {
        self.peeked_token = None;
        self.plugin.on_start_render(cursor, &props);
    }

    /// Tells the plugin that rendering has finished.
    pub fn on_rendering_finished(&mut self)
        ensures
            old(self).plugin.finishes_rendering(final(self).plugin),
            final(self).state == old(self).state,
            final(self).peeked_token == old(self).peeked_token,
    {
        self.plugin.on_rendering_finished();
    }
}

} // verus!
