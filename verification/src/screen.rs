//! The terminal emulation buffer: a vt100 parser plus the supervisor's own
//! scroll position and grow-only grid dimensions.

use vstd::prelude::*;

use crate::vt;
use crate::vt::{vt_history, vt_offset};

verus! {

pub open spec fn nat_min(a: nat, b: nat) -> nat {
    if a <= b {
        a
    } else {
        b
    }
}

/// What scrolling up by `n` does to an offset bounded by `hist` lines of
/// scrollback.
pub open spec fn scroll_up_model(off: nat, n: nat, hist: nat) -> nat {
    nat_min(off + n, hist)
}

/// What scrolling down by `n` does to an offset bounded by `hist` lines of
/// scrollback.
pub open spec fn scroll_down_model(off: nat, n: nat, hist: nat) -> nat {
    nat_min(if off >= n { (off - n) as nat } else { 0 }, hist)
}

/// A scrollable, ANSI/VT100-correct view of one process's output.
///
/// `scroll_offset` counts lines back from the live bottom of the output
/// (0 = live). The stored `rows`/`cols` only ever grow: shrinking the grid
/// would destroy content at its edges that could not be reconstructed when
/// it is enlarged again.
pub struct TerminalScreen {
    parser: vt100::Parser,
    pub scroll_offset: usize,
    rows: u16,
    cols: u16,
}

impl TerminalScreen {
    /// The stored scroll position (0 = live bottom).
    pub closed spec fn spec_offset(&self) -> usize {
        self.scroll_offset
    }

    pub closed spec fn spec_rows(&self) -> u16 {
        self.rows
    }

    pub closed spec fn spec_cols(&self) -> u16 {
        self.cols
    }

    /// The scrollback view offset of the underlying emulator.
    pub closed spec fn emu_offset(&self) -> nat {
        vt_offset(self.parser)
    }

    /// The number of scrollback lines the underlying emulator holds.
    pub closed spec fn emu_history(&self) -> nat {
        vt_history(self.parser)
    }

    pub fn new(rows: u16, cols: u16, scrollback: usize) -> (r: Self)
        requires
            rows >= 1,
            cols >= 1,
        ensures
            r.spec_rows() == rows,
            r.spec_cols() == cols,
            r.spec_offset() == 0,
            r.emu_offset() == 0,
            r.emu_history() == 0,
    {
        TerminalScreen { parser: vt100::Parser::new(rows, cols, scrollback), scroll_offset: 0, rows, cols }
    }

    /// Interpret a chunk of raw output: printable text and control
    /// sequences, appending scrolled-off lines to the scrollback history.
    pub fn process_bytes(&mut self, data: &[u8])
        ensures
            final(self).spec_rows() == old(self).spec_rows(),
            final(self).spec_cols() == old(self).spec_cols(),
            final(self).spec_offset() == old(self).spec_offset(),
            final(self).emu_offset() <= final(self).emu_history(),
    {
        self.parser.process(data);
    }

    pub fn screen(&self) -> &vt100::Screen {
        vt::vt_screen(&self.parser)
    }

    pub fn rows(&self) -> (r: u16)
        ensures
            r == self.spec_rows(),
    {
        self.rows
    }

    pub fn cols(&self) -> (r: u16)
        ensures
            r == self.spec_cols(),
    {
        self.cols
    }

    /// Grow the grid to cover the requested size; never shrink it.
    pub fn resize(&mut self, rows: u16, cols: u16)
        requires
            old(self).spec_rows() >= 1,
            old(self).spec_cols() >= 1,
        ensures
            final(self).spec_rows() == if rows >= old(self).spec_rows() {
                rows
            } else {
                old(self).spec_rows()
            },
            final(self).spec_cols() == if cols >= old(self).spec_cols() {
                cols
            } else {
                old(self).spec_cols()
            },
            final(self).spec_rows() >= old(self).spec_rows(),
            final(self).spec_cols() >= old(self).spec_cols(),
            final(self).spec_offset() == old(self).spec_offset(),
            final(self).emu_offset() == old(self).emu_offset(),
            final(self).emu_history() == old(self).emu_history(),
    {
        let new_rows = if rows >= self.rows { rows } else { self.rows };
        let new_cols = if cols >= self.cols { cols } else { self.cols };
        self.rows = new_rows;
        self.cols = new_cols;
        self.parser.set_size(new_rows, new_cols);
    }

    /// Scroll `n` lines further into the scrollback, clamped to the lines
    /// actually held.
    pub fn scroll_up(&mut self, n: usize)
        ensures
            final(self).spec_offset() as nat == scroll_up_model(
                old(self).spec_offset() as nat,
                n as nat,
                old(self).emu_history(),
            ),
            final(self).emu_offset() == final(self).spec_offset() as nat,
            final(self).emu_history() == old(self).emu_history(),
            final(self).spec_offset() as nat <= final(self).emu_history(),
            final(self).spec_rows() == old(self).spec_rows(),
            final(self).spec_cols() == old(self).spec_cols(),
    {
        let want = self.scroll_offset.saturating_add(n);
        self.scroll_offset = vt::vt_scroll_to(&mut self.parser, want);
    }

    /// Scroll `n` lines back towards the live bottom.
    pub fn scroll_down(&mut self, n: usize)
        ensures
            final(self).spec_offset() as nat == scroll_down_model(
                old(self).spec_offset() as nat,
                n as nat,
                old(self).emu_history(),
            ),
            final(self).emu_offset() == final(self).spec_offset() as nat,
            final(self).emu_history() == old(self).emu_history(),
            final(self).spec_offset() as nat <= final(self).emu_history(),
            final(self).spec_rows() == old(self).spec_rows(),
            final(self).spec_cols() == old(self).spec_cols(),
    {
        let want = self.scroll_offset.saturating_sub(n);
        self.scroll_offset = vt::vt_scroll_to(&mut self.parser, want);
    }

    /// Return to the live bottom of the output.
    pub fn scroll_to_bottom(&mut self)
        ensures
            final(self).spec_offset() == 0,
            final(self).emu_offset() == 0,
            final(self).emu_history() == old(self).emu_history(),
            final(self).spec_rows() == old(self).spec_rows(),
            final(self).spec_cols() == old(self).spec_cols(),
    {
        self.scroll_offset = vt::vt_scroll_to(&mut self.parser, 0);
    }
}

/// Law: scrolling up by `n` and then down by `n` returns the offset to its
/// original value whenever the scrollback holds at least `off + n` lines;
/// and both operations always leave the offset within `[0, hist]`.
pub proof fn lemma_scroll_round_trip(off: nat, n: nat, hist: nat)
    requires
        off + n <= hist,
    ensures
        scroll_down_model(scroll_up_model(off, n, hist), n, hist) == off,
        scroll_up_model(off, n, hist) <= hist,
        scroll_down_model(off, n, hist) <= hist,
{
}

} // verus!
