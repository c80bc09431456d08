//! How one logical line is laid out on the terminal: escape spans pass
//! through whole, printable characters wrap before the last column.
use vstd::prelude::*;
use crate::cursor::CursorInfo;
use crate::escape::{escape_end, lemma_param_run_end_bounds};
use crate::width::cell_width;

verus! {

/// Erases the rest of the row, then moves to the next one.
pub open spec fn row_end() -> Seq<char> {
    seq!['\x1b', '[', 'K', '\n']
}

/// Number of line feeds in `s`.
pub open spec fn count_line_feeds(s: Seq<char>) -> nat
    decreases s.len(),
{
    if s.len() == 0 {
        0
    } else {
        count_line_feeds(s.drop_last()) + if s.last() == '\n' {
            1nat
        } else {
            0nat
        }
    }
}

/// Line feeds of a concatenation are those of its parts.
pub proof fn lemma_count_line_feeds_add(a: Seq<char>, b: Seq<char>)
    ensures
        count_line_feeds(a + b) == count_line_feeds(a) + count_line_feeds(b),
    decreases b.len(),
{
    if b.len() > 0 {
        assert((a + b).drop_last() =~= a + b.drop_last());
        lemma_count_line_feeds_add(a, b.drop_last());
    } else {
        assert(a + b =~= a);
    }
}

/// A sequence without line feeds counts none.
pub proof fn lemma_count_no_line_feed(s: Seq<char>)
    requires
        forall|k: int| 0 <= k < s.len() ==> s[k] != '\n',
    ensures
        count_line_feeds(s) == 0,
    decreases s.len(),
{
    if s.len() > 0 {
        lemma_count_no_line_feed(s.drop_last());
    }
}

/// `n` blanks.
pub open spec fn spaces(n: nat) -> Seq<char> {
    Seq::new(n, |_i: int| ' ')
}

/// Output, final cursor and number of forced wraps when the characters of
/// `line` from index `i` on are written with the cursor at `cur`; each
/// continuation row starts with `indent` blanks.
pub open spec fn render_from(line: Seq<char>, i: int, indent: nat, cur: CursorInfo) -> (
    Seq<char>,
    CursorInfo,
    nat,
)
    decreases line.len() - i,
    via render_from_decreases
{
    if i < 0 || i >= line.len() {
        (Seq::empty(), cur, 0)
    } else if line[i] == '\x1b' {
        let j = escape_end(line, i);
        let rest = render_from(line, j, indent, cur);
        (line.subrange(i, j) + rest.0, rest.1, rest.2)
    } else {
        let w = cell_width(line[i]);
        if cur.spec_fits(w) {
            let rest = render_from(line, i + 1, indent, cur.after_add(w));
            (seq![line[i]] + rest.0, rest.1, rest.2)
        } else {
            let rest = render_from(
                line,
                i + 1,
                indent,
                cur.after_newline().after_add(indent).after_add(w),
            );
            (row_end() + spaces(indent) + seq![line[i]] + rest.0, rest.1, rest.2 + 1)
        }
    }
}

#[via_fn]
proof fn render_from_decreases(line: Seq<char>, i: int, indent: nat, cur: CursorInfo) {
    if 0 <= i < line.len() && line[i] == '\x1b' {
        lemma_param_run_end_bounds(line, i + 2);
    }
}

/// Columns taken by the printable characters of `line` from index `i` on;
/// escape spans take none.
pub open spec fn visible_width(line: Seq<char>, i: int) -> nat
    decreases line.len() - i,
    via visible_width_decreases
{
    if i < 0 || i >= line.len() {
        0
    } else if line[i] == '\x1b' {
        visible_width(line, escape_end(line, i))
    } else {
        cell_width(line[i]) + visible_width(line, i + 1)
    }
}

#[via_fn]
proof fn visible_width_decreases(line: Seq<char>, i: int) {
    if 0 <= i < line.len() && line[i] == '\x1b' {
        lemma_param_run_end_bounds(line, i + 2);
    }
}

/// Whether every printable character of `line` from `i` on fits on a fresh
/// continuation row after `indent` columns.
pub open spec fn fits_after_indent(line: Seq<char>, i: int, indent: nat, cols: nat) -> bool
    decreases line.len() - i,
    via fits_after_indent_decreases
{
    if i < 0 || i >= line.len() {
        true
    } else if line[i] == '\x1b' {
        fits_after_indent(line, escape_end(line, i), indent, cols)
    } else {
        indent + cell_width(line[i]) < cols && fits_after_indent(line, i + 1, indent, cols)
    }
}

#[via_fn]
proof fn fits_after_indent_decreases(line: Seq<char>, i: int, indent: nat, cols: nat) {
    if 0 <= i < line.len() && line[i] == '\x1b' {
        lemma_param_run_end_bounds(line, i + 2);
    }
}

/// An escape span is written as one uninterrupted piece: the output for a
/// line at an escape introducer begins with the whole span, with no row
/// break inside it.
pub proof fn lemma_escape_span_whole(line: Seq<char>, i: int, indent: nat, cur: CursorInfo)
    requires
        0 <= i < line.len(),
        line[i] == '\x1b',
    ensures
        i < escape_end(line, i) <= line.len(),
        render_from(line, i, indent, cur).0.subrange(0, escape_end(line, i) - i)
            == line.subrange(i, escape_end(line, i)),
{
    lemma_param_run_end_bounds(line, i + 2);
    let j = escape_end(line, i);
    let rest = render_from(line, j, indent, cur);
    assert((line.subrange(i, j) + rest.0).subrange(0, j - i) =~= line.subrange(i, j));
}

/// Each forced wrap writes exactly one line feed, and nothing else does when
/// the line holds none.
pub proof fn lemma_render_line_feeds(line: Seq<char>, i: int, indent: nat, cur: CursorInfo)
    requires
        0 <= i,
        forall|k: int| 0 <= k < line.len() ==> line[k] != '\n',
    ensures
        count_line_feeds(render_from(line, i, indent, cur).0) == render_from(line, i, indent, cur).2,
    decreases line.len() - i,
{
    if i < line.len() {
        if line[i] == '\x1b' {
            lemma_param_run_end_bounds(line, i + 2);
            let j = escape_end(line, i);
            lemma_render_line_feeds(line, j, indent, cur);
            lemma_count_no_line_feed(line.subrange(i, j));
            lemma_count_line_feeds_add(line.subrange(i, j), render_from(line, j, indent, cur).0);
        } else {
            let w = cell_width(line[i]);
            if cur.spec_fits(w) {
                let next = cur.after_add(w);
                lemma_render_line_feeds(line, i + 1, indent, next);
                lemma_count_no_line_feed(seq![line[i]]);
                lemma_count_line_feeds_add(seq![line[i]], render_from(line, i + 1, indent, next).0);
            } else {
                let next = cur.after_newline().after_add(indent).after_add(w);
                let rest = render_from(line, i + 1, indent, next).0;
                lemma_render_line_feeds(line, i + 1, indent, next);
                lemma_count_no_line_feed(spaces(indent));
                lemma_count_no_line_feed(seq![line[i]]);
                reveal_with_fuel(count_line_feeds, 5);
                assert(count_line_feeds(row_end()) == 1);
                lemma_count_line_feeds_add(row_end(), spaces(indent));
                lemma_count_line_feeds_add(row_end() + spaces(indent), seq![line[i]]);
                lemma_count_line_feeds_add(row_end() + spaces(indent) + seq![line[i]], rest);
            }
        }
    }
}

/// Whether the layout walk over `line` that starts at index `i` with the
/// cursor at `cur` comes to index `k` with the cursor at `ck`.
pub open spec fn reaches(line: Seq<char>, i: int, indent: nat, cur: CursorInfo, k: int, ck: CursorInfo) -> bool
    decreases line.len() - i,
    via reaches_decreases
{
    if i == k && cur == ck {
        true
    } else if i < 0 || i >= line.len() || i >= k {
        false
    } else if line[i] == '\x1b' {
        reaches(line, escape_end(line, i), indent, cur, k, ck)
    } else {
        let w = cell_width(line[i]);
        if cur.spec_fits(w) {
            reaches(line, i + 1, indent, cur.after_add(w), k, ck)
        } else {
            reaches(line, i + 1, indent, cur.after_newline().after_add(indent).after_add(w), k, ck)
        }
    }
}

#[via_fn]
proof fn reaches_decreases(line: Seq<char>, i: int, indent: nat, cur: CursorInfo, k: int, ck: CursorInfo) {
    if 0 <= i < line.len() && line[i] == '\x1b' {
        lemma_param_run_end_bounds(line, i + 2);
    }
}

/// The output from a position the walk reaches ends the output of the
/// whole walk.
pub proof fn lemma_walk_suffix(line: Seq<char>, i: int, indent: nat, cur: CursorInfo, k: int, ck: CursorInfo)
    requires
        0 <= i,
        reaches(line, i, indent, cur, k, ck),
    ensures
        ({
            let whole = render_from(line, i, indent, cur).0;
            let tail = render_from(line, k, indent, ck).0;
            tail.len() <= whole.len() && whole.subrange(whole.len() - tail.len(), whole.len() as int) == tail
        }),
    decreases line.len() - i,
{
    let whole = render_from(line, i, indent, cur).0;
    if i == k && cur == ck {
        assert(whole.subrange(0, whole.len() as int) =~= whole);
    } else {
        let (j, next, piece) = if line[i] == '\x1b' {
            lemma_param_run_end_bounds(line, i + 2);
            (escape_end(line, i), cur, line.subrange(i, escape_end(line, i)))
        } else {
            let w = cell_width(line[i]);
            if cur.spec_fits(w) {
                (i + 1, cur.after_add(w), seq![line[i]])
            } else {
                (i + 1, cur.after_newline().after_add(indent).after_add(w), row_end() + spaces(indent) + seq![line[i]])
            }
        };
        lemma_walk_suffix(line, j, indent, next, k, ck);
        let mid = render_from(line, j, indent, next).0;
        let tail = render_from(line, k, indent, ck).0;
        assert(whole == piece + mid);
        assert(whole.subrange(whole.len() - tail.len(), whole.len() as int) =~= mid.subrange(
            mid.len() - tail.len(),
            mid.len() as int,
        ));
    }
}

/// An escape span is written as one uninterrupted piece wherever the walk
/// meets it: the whole line's output holds the span contiguously, at the
/// place where the output from that escape begins.
pub proof fn lemma_escape_span_atomic(line: Seq<char>, indent: nat, cur: CursorInfo, k: int, ck: CursorInfo)
    requires
        reaches(line, 0, indent, cur, k, ck),
        0 <= k < line.len(),
        line[k] == '\x1b',
    ensures
        ({
            let whole = render_from(line, 0, indent, cur).0;
            let e = escape_end(line, k);
            let at = whole.len() - render_from(line, k, indent, ck).0.len();
            &&& 0 <= at
            &&& at + (e - k) <= whole.len()
            &&& whole.subrange(at, at + (e - k)) == line.subrange(k, e)
        }),
{
    lemma_walk_suffix(line, 0, indent, cur, k, ck);
    lemma_escape_span_whole(line, k, indent, ck);
    let whole = render_from(line, 0, indent, cur).0;
    let tail = render_from(line, k, indent, ck).0;
    let e = escape_end(line, k);
    let at = whole.len() - tail.len();
    assert(whole.subrange(at, at + (e - k)) =~= tail.subrange(0, e - k));
}

/// Each forced wrap moves the cursor one row down until the last scrolling
/// row, where it stays.
pub proof fn lemma_render_rows_advance(line: Seq<char>, i: int, indent: nat, cur: CursorInfo)
    requires
        0 <= i,
        cur.wf(),
    ensures
        ({
            let r = render_from(line, i, indent, cur);
            &&& r.1.term_lines == cur.term_lines
            &&& r.1.wf()
            &&& r.1.cursor_line == (if cur.cursor_line + r.2 < cur.term_lines {
                cur.cursor_line + r.2
            } else {
                cur.term_lines as int
            })
        }),
    decreases line.len() - i,
{
    if i < line.len() {
        if line[i] == '\x1b' {
            lemma_param_run_end_bounds(line, i + 2);
            lemma_render_rows_advance(line, escape_end(line, i), indent, cur);
        } else {
            let w = cell_width(line[i]);
            if cur.spec_fits(w) {
                lemma_render_rows_advance(line, i + 1, indent, cur.after_add(w));
            } else {
                lemma_render_rows_advance(line, i + 1, indent, cur.after_newline().after_add(indent).after_add(w));
            }
        }
    }
}

/// Content that fits on the current row is written without a forced wrap.
pub proof fn lemma_short_line_no_wrap(line: Seq<char>, i: int, indent: nat, cur: CursorInfo)
    requires
        0 <= i,
        cur.cursor_col + visible_width(line, i) < cur.term_cols,
    ensures
        render_from(line, i, indent, cur).2 == 0,
        render_from(line, i, indent, cur).1.cursor_line == cur.cursor_line,
        render_from(line, i, indent, cur).1.term_lines == cur.term_lines,
    decreases line.len() - i,
{
    if i < line.len() {
        if line[i] == '\x1b' {
            lemma_param_run_end_bounds(line, i + 2);
            lemma_short_line_no_wrap(line, escape_end(line, i), indent, cur);
        } else {
            let w = cell_width(line[i]);
            lemma_short_line_no_wrap(line, i + 1, indent, cur.after_add(w));
        }
    }
}

/// Each row holds at most `term_cols - 1` columns when every character fits
/// after the indent: the printable width is covered by the rows used.
pub proof fn lemma_wide_line_rows(line: Seq<char>, i: int, indent: nat, cur: CursorInfo)
    requires
        0 <= i,
        cur.wf(),
        cur.cursor_col < cur.term_cols,
        fits_after_indent(line, i, indent, cur.term_cols as nat),
    ensures
        cur.cursor_col + visible_width(line, i) <= (cur.term_cols - 1) * (
        render_from(line, i, indent, cur).2 + 1),
    decreases line.len() - i,
{
    if i >= line.len() {
        assert(cur.cursor_col <= (cur.term_cols - 1) * 1);
    } else {
        if line[i] == '\x1b' {
            lemma_param_run_end_bounds(line, i + 2);
            lemma_wide_line_rows(line, escape_end(line, i), indent, cur);
        } else {
            let w = cell_width(line[i]);
            let cols = cur.term_cols - 1;
            if cur.spec_fits(w) {
                lemma_wide_line_rows(line, i + 1, indent, cur.after_add(w));
                assert(cur.after_add(w).cursor_col == cur.cursor_col + w);
            } else {
                let next = cur.after_newline().after_add(indent).after_add(w);
                assert(next.wf());
                lemma_wide_line_rows(line, i + 1, indent, next);
                let k = render_from(line, i + 1, indent, next).2;
                assert(cols * (k + 2) == cols * (k + 1) + cols) by (nonlinear_arith);
            }
        }
    }
}

} // verus!
