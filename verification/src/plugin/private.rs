//! Plugin trait.
use vstd::prelude::*;

use crate::alignment::Cursor;
use crate::parser::{counts_fit, first_token, lemma_counts_fit, opt_view, parser_next, Parser, Token, TokenView};
use crate::plugin::{NoPlugin, TextBoxProperties};

verus! {

/// Plugin trait.
///
/// Plugins allow modifying and extending TextBox's internals.
///
/// *Important*: this is an experimental, unstable interface. Each plugin states what its
/// methods do in the spec functions of this trait, so the methods have no default bodies.
pub trait Plugin<'a, C>: Sized {
    /// The cursor positions and text box properties on which `on_start_render` is defined.
    spec fn can_start_render(&self, cursor: Cursor, props: TextBoxProperties) -> bool;

    /// Whether the plugin may be in state `after` once a new line was started in this state.
    spec fn starts_line(&self, after: Self) -> bool;

    /// Whether the plugin may be in state `after` once rendering finished in this state.
    spec fn finishes_rendering(&self, after: Self) -> bool;

    /// Whether `next_token`, called in this state on a source with text `src`, may return
    /// `token`, leave the plugin in state `after` and the source with text `rest`.
    spec fn next_spec(
        &self,
        src: Seq<char>,
        token: Option<TokenView<C>>,
        after: Self,
        rest: Seq<char>,
    ) -> bool;

    /// Whether `render_token`, called in this state on `token`, may return `result` and leave
    /// the plugin in state `after`.
    spec fn render_spec(&self, token: TokenView<C>, result: Option<TokenView<C>>, after: Self) -> bool;

    /// Whether `on_start_render`, called in this state with `cursor` and `props`, may move the
    /// cursor to `cursor_after` and leave the plugin in state `after`.
    spec fn start_render_spec(
        &self,
        cursor: Cursor,
        props: TextBoxProperties,
        cursor_after: Cursor,
        after: Self,
    ) -> bool;

    /// Called when a new line is started.
    fn new_line(&mut self)
        ensures
            old(self).starts_line(*final(self)),
    ;

    /// Generates the next text token from the tokens of `source`.
    fn next_token(&mut self, source: &mut Parser<'a, C>) -> (r: Option<Token<'a, C>>)
        requires
            counts_fit::<C>(old(source)@),
        ensures
            old(self).next_spec(old(source)@, opt_view(r), *final(self), final(source)@),
    ;

    /// Modifies the current token immediately before it is rendered.
    ///
    /// This function must return the same token type as the input, otherwise the returned
    /// token is ignored.
    fn render_token(&mut self, token: Token<'a, C>) -> (r: Option<Token<'a, C>>)
        ensures
            old(self).render_spec(token@, opt_view(r), *final(self)),
    ;

    /// Called before TextBox rendering is started.
    fn on_start_render(&mut self, cursor: &mut Cursor, props: &TextBoxProperties)
        requires
            old(self).can_start_render(*old(cursor), *props),
        ensures
            old(self).start_render_spec(*old(cursor), *props, *final(cursor), *final(self)),
    ;

    /// Called after rendering has finished.
    fn on_rendering_finished(&mut self)
        ensures
            old(self).finishes_rendering(*final(self)),
    ;
}

impl<'a, C> Plugin<'a, C> for NoPlugin<C> {
    open spec fn can_start_render(&self, cursor: Cursor, props: TextBoxProperties) -> bool {
        true
    }

    /// Starting a line leaves the placeholder as it is.
    open spec fn starts_line(&self, after: Self) -> bool {
        after == *self
    }

    /// Finishing rendering leaves the placeholder as it is.
    open spec fn finishes_rendering(&self, after: Self) -> bool {
        after == *self
    }

    /// The placeholder returns the parser's next token.
    open spec fn next_spec(
        &self,
        src: Seq<char>,
        token: Option<TokenView<C>>,
        after: Self,
        rest: Seq<char>,
    ) -> bool {
        parser_next::<C>(src, token, rest) && after == *self
    }

    /// The placeholder returns the token unchanged.
    open spec fn render_spec(&self, token: TokenView<C>, result: Option<TokenView<C>>, after: Self) -> bool {
        result == Some(token) && after == *self
    }

    /// The placeholder leaves the cursor where it is.
    open spec fn start_render_spec(
        &self,
        cursor: Cursor,
        props: TextBoxProperties,
        cursor_after: Cursor,
        after: Self,
    ) -> bool {
        cursor_after == cursor && after == *self
    }

    fn new_line(&mut self) {
    }

    /// Returns the parser's next token.
    fn next_token(&mut self, source: &mut Parser<'a, C>) -> (r: Option<Token<'a, C>>)
        ensures
            match first_token::<C>(old(source)@) {
                None => r is None && final(source)@ == old(source)@,
                Some((t, n)) => r matches Some(tok) && tok@ == t && final(source)@ == old(
                    source,
                )@.skip(n as int),
            },
    {
        proof {
            lemma_counts_fit::<C>(source@, 0);
        }
        source.next()
    }

    /// Returns the token unchanged.
    fn render_token(&mut self, token: Token<'a, C>) -> (r: Option<Token<'a, C>>)
        ensures
            r == Some(token),
    {
        Some(token)
    }

    /// Leaves the cursor where it is.
    fn on_start_render(&mut self, cursor: &mut Cursor, props: &TextBoxProperties)
        ensures
            *final(cursor) == *old(cursor),
    {
    }

    fn on_rendering_finished(&mut self) {
    }
}

} // verus!
