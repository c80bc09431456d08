//! On-screen width of characters and character sequences.
use vstd::prelude::*;
use unicode_width::UnicodeWidthChar;

verus! {

/// What `unicode_width`'s `UnicodeWidthChar::width` returns for a character.
pub uninterp spec fn unicode_width_of(c: char) -> Option<usize>;

/// Relies on `unicode_width::UnicodeWidthChar::width` for `char`: printable
/// ASCII is one column, C0 and C1 control codes have no width, every other
/// character has a width of at most three columns.
#[verifier::external_body]
fn unicode_char_width(c: char) -> (r: Option<usize>)
    ensures
        r == unicode_width_of(c),
        ' ' <= c < '\u{7f}' ==> r == Some(1usize),
        c < ' ' || ('\u{7f}' <= c < '\u{a0}') ==> r is None,
        c >= '\u{a0}' ==> r is Some,
        r matches Some(w) ==> w <= 3,
{
    c.width()
}

/// Printable ASCII: space to tilde.
pub open spec fn is_printable_ascii(c: char) -> bool {
    ' ' <= c < '\u{7f}'
}

/// Columns a character occupies on screen: one for printable ASCII, the
/// Unicode width otherwise; characters without a defined width count as one
/// column.
pub open spec fn cell_width(c: char) -> nat {
    if is_printable_ascii(c) {
        1
    } else {
        match unicode_width_of(c) {
            Some(w) => w as nat,
            None => 1,
        }
    }
}

/// Sum of the widths of the characters of `s`.
pub open spec fn seq_width(s: Seq<char>) -> nat
    decreases s.len(),
{
    if s.len() == 0 {
        0
    } else {
        seq_width(s.drop_last()) + cell_width(s.last())
    }
}

/// A sequence of printable ASCII is as wide as it is long.
pub proof fn lemma_ascii_width(s: Seq<char>)
    requires
        forall|k: int| 0 <= k < s.len() ==> is_printable_ascii(#[trigger] s[k]),
    ensures
        seq_width(s) == s.len(),
    decreases s.len(),
{
    if s.len() > 0 {
        let init = s.drop_last();
        assert forall|k: int| 0 <= k < init.len() implies is_printable_ascii(#[trigger] init[k]) by {
            assert(init[k] == s[k]);
        }
        lemma_ascii_width(init);
        assert(is_printable_ascii(s[s.len() - 1]));
    }
}

/// Width of one character, one column where none is defined.
pub fn char_width(c: char) -> (r: usize)
    ensures
        r == cell_width(c),
        r <= 3,
        ' ' <= c < '\u{7f}' ==> r == 1,
{
    match unicode_char_width(c) {
        Some(w) => w,
        None => 1,
    }
}

/// Width of a character sequence: the sum of its characters' widths.
pub fn str_width(s: &Vec<char>) -> (r: usize)
    requires
        s@.len() <= usize::MAX / 3,
    ensures
        r == seq_width(s@),
        r <= 3 * s@.len(),
{
    let mut total: usize = 0;
    let mut i: usize = 0;
    while i < s.len()
        invariant
            i <= s@.len(),
            s@.len() <= usize::MAX / 3,
            total == seq_width(s@.subrange(0, i as int)),
            total <= 3 * i,
        decreases s@.len() - i,
    {
        let w = char_width(s[i]);
        assert(s@.subrange(0, i + 1).drop_last() == s@.subrange(0, i as int));
        total = total + w;
        i = i + 1;
    }
    assert(s@.subrange(0, i as int) == s@);
    total
}

} // verus!
