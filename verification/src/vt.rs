//! Trusted boundary to the vt100 crate: the terminal-emulation parser that
//! interprets control sequences into a grid plus scrollback history.
//!
//! The parser is opaque to the verifier. Two named quantities of its
//! currently active grid are all the contracts speak of: `vt_offset`, the
//! current scroll position (0 = live bottom), and `vt_history`, the number
//! of lines currently held in scrollback.

use vstd::prelude::*;

verus! {

#[verifier::external_type_specification]
#[verifier::external_body]
pub struct ExParser(vt100::Parser);

#[verifier::external_type_specification]
#[verifier::external_body]
pub struct ExVtScreen(vt100::Screen);

/// The scrollback view offset of the parser's active grid (0 = bottom).
pub uninterp spec fn vt_offset(p: vt100::Parser) -> nat;

/// The number of lines currently held in the active grid's scrollback.
pub uninterp spec fn vt_history(p: vt100::Parser) -> nat;

/// Relies on vt100::Parser::new: a fresh screen has an empty scrollback
/// and is scrolled to the bottom. A grid needs at least one row and one
/// column: the crate computes `rows - 1` when building it and `cols - 1`
/// when printing into it.
pub assume_specification[ vt100::Parser::new ](
    rows: u16,
    cols: u16,
    scrollback_len: usize,
) -> (r: vt100::Parser)
    requires
        rows >= 1,
        cols >= 1,
    ensures
        vt_offset(r) == 0,
        vt_history(r) == 0,
;

/// Relies on vt100::Parser::process: feeding bytes may append scrolled-off
/// lines to the history and moves the view offset only by clamping it to
/// the history, so the offset never ends up past the history.
pub assume_specification[ vt100::Parser::process ](p: &mut vt100::Parser, bytes: &[u8])
    ensures
        vt_offset(*final(p)) <= vt_history(*final(p)),
;

/// Relies on vt100::Parser::set_size: resizing the grid touches neither
/// the scrollback history nor the view offset. As with a fresh grid, at
/// least one row and one column are needed (`rows - 1` is computed).
pub assume_specification[ vt100::Parser::set_size ](p: &mut vt100::Parser, rows: u16, cols: u16)
    requires
        rows >= 1,
        cols >= 1,
    ensures
        vt_offset(*final(p)) == vt_offset(*old(p)),
        vt_history(*final(p)) == vt_history(*old(p)),
;

/// Relies on vt100::Parser::set_scrollback, which clamps the requested
/// offset to the current scrollback length, and on vt100::Screen::scrollback,
/// which reads back the offset that resulted. The history (a collection
/// length held in a usize) is unchanged.
#[verifier::external_body]
pub(crate) fn vt_scroll_to(p: &mut vt100::Parser, want: usize) -> (r: usize)
    ensures
        r as int == vstd::math::min(want as int, vt_history(*old(p)) as int),
        vt_offset(*final(p)) == r as nat,
        vt_history(*final(p)) == vt_history(*old(p)),
        vt_history(*old(p)) <= usize::MAX as nat,
{
    p.set_scrollback(want);
    p.screen().scrollback()
}

/// Relies on vt100::Parser::screen: read-only access to the interpreted
/// terminal state, for rendering and inspection.
#[verifier::external_body]
pub fn vt_screen(p: &vt100::Parser) -> (r: &vt100::Screen) {
    p.screen()
}

} // verus!
