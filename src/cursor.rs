//! The renderer's own record of where the terminal cursor stands.
use vstd::prelude::*;
use crate::terminal::{goto, goto_seq};

verus! {

/// Believed cursor position in the scrolling region, with one saved
/// position. `term_lines` is the index of the last scrolling row; the row
/// below it holds the status bar.
#[derive(Clone, Copy, Debug, PartialEq, Eq)]
pub struct CursorInfo {
    pub term_lines: usize,
    pub term_cols: usize,
    pub cursor_line: usize,
    pub cursor_col: usize,
    pub save_line: usize,
    pub save_col: usize,
}

impl CursorInfo {
    /// The cursor rows stay within the scrolling region.
    pub open spec fn wf(&self) -> bool {
        &&& self.cursor_line <= self.term_lines
        &&& self.save_line <= self.term_lines
        &&& self.term_lines < usize::MAX
    }

    /// The record after a line feed: one row down unless already on the last
    /// scrolling row, back to the first column.
    pub open spec fn after_newline(self) -> CursorInfo {
        CursorInfo {
            cursor_line: if self.cursor_line != self.term_lines {
                (self.cursor_line + 1) as usize
            } else {
                self.cursor_line
            },
            cursor_col: 0,
            ..self
        }
    }

    /// The record after `n` more columns were written.
    pub open spec fn after_add(self, n: nat) -> CursorInfo {
        CursorInfo { cursor_col: (self.cursor_col + n) as usize, ..self }
    }

    /// Whether `cells` more columns fit on the current row, leaving the last
    /// column free.
    pub open spec fn spec_fits(self, cells: nat) -> bool {
        self.cursor_col + cells < self.term_cols
    }

    /// The record after the current position was saved.
    pub open spec fn after_save(self) -> CursorInfo {
        CursorInfo { save_line: self.cursor_line, save_col: self.cursor_col, ..self }
    }

    /// The record after the saved position was restored.
    pub open spec fn after_restore(self) -> CursorInfo {
        CursorInfo { cursor_line: self.save_line, cursor_col: self.save_col, ..self }
    }

    /// The record for a terminal of `term_rows` rows and `term_cols` columns.
    pub open spec fn new_spec(term_cols: usize, term_rows: usize) -> CursorInfo {
        CursorInfo {
            term_lines: (term_rows - 1) as usize,
            term_cols,
            cursor_line: 0,
            cursor_col: 0,
            save_line: 0,
            save_col: 0,
        }
    }

    /// A record for a terminal of `term_rows` rows and `term_cols` columns,
    /// the last row reserved for the status bar, cursor at the top-left.
    pub fn new(term_cols: usize, term_rows: usize) -> (r: CursorInfo)
        requires
            term_rows >= 1,
        ensures
            r.wf(),
            r == CursorInfo::new_spec(term_cols, term_rows),
    {
        let term_lines = term_rows - 1;
        CursorInfo { term_lines, term_cols, cursor_line: 0, cursor_col: 0, save_line: 0, save_col: 0 }
    }

    /// Accounts for a line feed.
    pub fn newline(&mut self)
        requires
            old(self).wf(),
        ensures
            *final(self) == old(self).after_newline(),
            final(self).wf(),
    {
        if self.cursor_line != self.term_lines {
            self.cursor_line = self.cursor_line + 1;
        }
        self.cursor_col = 0;
    }

    /// Accounts for `n` columns written on the current row.
    pub fn add(&mut self, n: usize)
        requires
            old(self).cursor_col + n <= usize::MAX,
        ensures
            *final(self) == old(self).after_add(n as nat),
    {
        self.cursor_col = self.cursor_col + n;
    }

    /// Remembers the current position.
    pub fn save(&mut self)
        ensures
            *final(self) == old(self).after_save(),
    {
        self.save_line = self.cursor_line;
        self.save_col = self.cursor_col;
    }

    /// Returns to the remembered position and moves the terminal cursor there.
    pub fn restore(&mut self, out: &mut Vec<char>)
        requires
            old(self).wf(),
            old(self).save_col < usize::MAX,
        ensures
            *final(self) == old(self).after_restore(),
            final(out)@ == old(out)@ + goto_seq(old(self).save_line as nat, old(self).save_col as nat),
    {
        self.cursor_line = self.save_line;
        self.cursor_col = self.save_col;
        goto(out, self.cursor_line, self.cursor_col);
    }

    /// Whether `cells` more columns fit on the current row.
    pub fn fits(&self, cells: usize) -> (r: bool)
        ensures
            r == self.spec_fits(cells as nat),
    {
        cells < self.term_cols && self.cursor_col < self.term_cols - cells
    }

    /// Back to the top-left corner, after the screen was cleared.
    pub fn clear(&mut self)
        ensures
            *final(self) == (CursorInfo { cursor_line: 0, cursor_col: 0, ..*old(self) }),
    {
        self.cursor_line = 0;
        self.cursor_col = 0;
    }
}

} // verus!
