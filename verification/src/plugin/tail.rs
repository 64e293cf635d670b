//! Display the last lines of the text.
use vstd::prelude::*;

use crate::alignment::{vertical_offset, Cursor, VerticalAlignment};
use crate::parser::{first_token, lemma_counts_fit, parser_next, Parser, Token, TokenView};
use crate::plugin::{Plugin, TextBoxProperties};

verus! {

/// Text tail display plugin.
///
/// Aligns the last line of the text to be always visible. If the text fits inside the text box,
/// it will be top aligned. If the text is longer, it will be bottom aligned.
#[derive(Copy, Clone)]
pub struct Tail;

/// `v` cast to `i32`, saturating at `i32::MAX`.
pub open spec fn saturated_i32(v: u32) -> i32 {
    if v > i32::MAX {
        i32::MAX
    } else {
        v as i32
    }
}

/// Casts with `az::SaturatingAs::saturating_as`, which returns the value when it fits into the
/// target type and the target's maximum otherwise (a `u32` is never below `i32::MIN`).
#[verifier::external_body]
fn saturating_as_i32(v: u32) -> (r: i32)
    ensures
        r == saturated_i32(v),
{
    az::SaturatingAs::saturating_as::<i32>(v)
}

/// The vertical offset of the tail alignment: none while the text fits into the box, otherwise
/// the text is moved up by the height that does not fit.
pub open spec fn tail_offset(props: TextBoxProperties) -> int {
    let box_height = saturated_i32(props.box_height);
    if props.text_height > box_height {
        box_height - props.text_height
    } else {
        0
    }
}

impl<'a, C> Plugin<'a, C> for Tail {
    /// The moved cursor stays in the coordinate range.
    open spec fn can_start_render(&self, cursor: Cursor, props: TextBoxProperties) -> bool {
        i32::MIN <= cursor.y + tail_offset(props)
    }

    /// The tail plugin holds no state.
    open spec fn starts_line(&self, after: Self) -> bool {
        after == *self
    }

    /// The tail plugin holds no state.
    open spec fn finishes_rendering(&self, after: Self) -> bool {
        after == *self
    }

    /// The tail plugin returns the parser's next token.
    open spec fn next_spec(
        &self,
        src: Seq<char>,
        token: Option<TokenView<C>>,
        after: Self,
        rest: Seq<char>,
    ) -> bool {
        parser_next::<C>(src, token, rest) && after == *self
    }

    /// The tail plugin returns the token unchanged.
    open spec fn render_spec(&self, token: TokenView<C>, result: Option<TokenView<C>>, after: Self) -> bool {
        result == Some(token) && after == *self
    }

    /// The tail plugin moves the cursor up by the height of the text that does not fit.
    open spec fn start_render_spec(
        &self,
        cursor: Cursor,
        props: TextBoxProperties,
        cursor_after: Cursor,
        after: Self,
    ) -> bool {
        cursor_after.y == cursor.y + tail_offset(props) && after == *self
    }

    fn new_line(&mut self) {
    }

    fn on_rendering_finished(&mut self) {
    }

    /// Returns the parser's next token.
    fn next_token(&mut self, source: &mut Parser<'a, C>) -> (r: Option<Token<'a, C>>)
        ensures
            match first_token::<C>(old(source)@) {
                None => r is None && final(source)@ == old(source)@,
                Some((t, n)) => r matches Some(tok) && tok@ == t && final(source)@ == old(
                    source,
                )@.skip(n as int),
            },
    {
        proof {
            lemma_counts_fit::<C>(source@, 0);
        }
        source.next()
    }

    /// Returns the token unchanged.
    fn render_token(&mut self, token: Token<'a, C>) -> (r: Option<Token<'a, C>>)
        ensures
            r == Some(token),
    {
        Some(token)
    }

    fn on_start_render(&mut self, cursor: &mut Cursor, props: &TextBoxProperties)
        ensures
            final(cursor).y == old(cursor).y + tail_offset(*props),
    {
        let box_height = saturating_as_i32(props.box_height);
        if props.text_height > box_height {
            let offset = box_height - props.text_height;

            cursor.y += offset
        }
    }
}

/// The tail plugin aligns text that fits into the box to the top of the box, and text that
/// does not fit to its bottom, so the last line is always visible.
pub proof fn law_tail_is_top_or_bottom(props: TextBoxProperties)
    requires
        props.box_height <= i32::MAX,
    ensures
        tail_offset(props) == if props.text_height <= props.box_height {
            vertical_offset(VerticalAlignment::Top, props.text_height as int, props.box_height as int)
        } else {
            vertical_offset(
                VerticalAlignment::Bottom,
                props.text_height as int,
                props.box_height as int,
            )
        },
{
}

} // verus!
