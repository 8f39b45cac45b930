//! Snapshot values for the rendering collaborator.
//!
//! Rendering itself lives outside the engine; what it needs from the state
//! beyond plain field reads is the caret position of the input line, which
//! depends on the displayed width of the text.

use unicode_width::UnicodeWidthStr;
use vstd::prelude::*;

use crate::state::State;

verus! {

/// The number of terminal columns a text occupies.
pub uninterp spec fn display_width_of(s: Seq<char>) -> nat;

/// Relies on unicode_width's `UnicodeWidthStr::width`: the displayed column
/// width of a string, a function of its characters alone.
#[verifier::external_body]
fn display_width(s: &str) -> (w: usize)
    ensures
        w == display_width_of(s@),
{
    UnicodeWidthStr::width(s)
}

/// The column the input caret sits at: the displayed width of the pending
/// input line.
pub fn input_cursor_column(state: &State) -> (w: usize)
    ensures
        w == display_width_of(state.input@),
{
    display_width(state.input.as_str())
}

/// How many columns the input line scrolls left so that the caret stays
/// inside a region `region_width` columns wide.
pub fn input_scroll(input_width: u16, region_width: u16) -> (s: u16)
    requires
        input_width < u16::MAX,
    ensures
        s as int == if input_width + 1 > region_width {
            input_width + 1 - region_width
        } else {
            0
        },
{
    if input_width + 1 > region_width {
        input_width + 1 - region_width
    } else {
        0
    }
}

} // verus!
