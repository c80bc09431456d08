//! Extent of an ANSI control sequence inside a line.
use vstd::prelude::*;

verus! {

/// Parameter characters of a control sequence: ASCII digits and `;`.
pub open spec fn is_param_char(c: char) -> bool {
    ('0' <= c && c <= '9') || c == ';'
}

/// First index at or after `j` that does not hold a parameter character.
pub open spec fn param_run_end(line: Seq<char>, j: int) -> int
    decreases line.len() - j,
{
    if 0 <= j < line.len() && is_param_char(line[j]) {
        param_run_end(line, j + 1)
    } else {
        j
    }
}

/// Index just past the control sequence introduced at `start`: the two
/// introducer characters, a run of parameter characters and one final
/// character, cut off at the end of the line.
pub open spec fn escape_end(line: Seq<char>, start: int) -> int {
    let e = param_run_end(line, start + 2) + 1;
    if e > line.len() {
        line.len() as int
    } else {
        e
    }
}

pub proof fn lemma_param_run_end_bounds(line: Seq<char>, j: int)
    requires
        0 <= j,
    ensures
        j <= param_run_end(line, j),
        j <= line.len() ==> param_run_end(line, j) <= line.len(),
    decreases line.len() - j,
{
    if 0 <= j < line.len() && is_param_char(line[j]) {
        lemma_param_run_end_bounds(line, j + 1);
    }
}

/// Index just past the control sequence that starts at `start`.
pub fn scan_escape(line: &Vec<char>, start: usize) -> (r: usize)
    requires
        start < line@.len(),
    ensures
        r == escape_end(line@, start as int),
        start < r <= line@.len(),
{
    let len = line.len();
    proof {
        lemma_param_run_end_bounds(line@, start + 2);
    }
    if len - start <= 2 {
        return len;
    }
    let mut i: usize = start + 2;
    while i < len && (('0' <= line[i] && line[i] <= '9') || line[i] == ';')
        invariant
            len == line@.len(),
            start + 2 <= i <= len,
            param_run_end(line@, i as int) == param_run_end(line@, start + 2),
        decreases len - i,
    {
        i = i + 1;
    }
    if i < len {
        i + 1
    } else {
        len
    }
}

} // verus!
