//! Control sequences written to the terminal, appended to an output buffer.
use vstd::prelude::*;

verus! {

/// Appends the characters of `s`.
pub fn push_text(out: &mut Vec<char>, s: &str)
    ensures
        final(out)@ == old(out)@ + s@,
{
    let n = s.unicode_len();
    let mut i: usize = 0;
    while i < n
        invariant
            n == s@.len(),
            i <= n,
            out@ == old(out)@ + s@.subrange(0, i as int),
        decreases n - i,
    {
        out.push(s.get_char(i));
        i = i + 1;
        assert(out@ == old(out)@ + s@.subrange(0, i as int));
    }
    assert(s@.subrange(0, n as int) == s@);
}

/// Appends the characters `s[from..to]`.
pub fn push_slice(out: &mut Vec<char>, s: &Vec<char>, from: usize, to: usize)
    requires
        from <= to <= s@.len(),
    ensures
        final(out)@ == old(out)@ + s@.subrange(from as int, to as int),
{
    let mut i: usize = from;
    while i < to
        invariant
            from <= i <= to <= s@.len(),
            out@ == old(out)@ + s@.subrange(from as int, i as int),
        decreases to - i,
    {
        out.push(s[i]);
        i = i + 1;
        assert(out@ == old(out)@ + s@.subrange(from as int, i as int));
    }
}

/// The decimal digit `d`, for `d < 10`.
pub open spec fn digit(d: nat) -> char {
    seq!['0', '1', '2', '3', '4', '5', '6', '7', '8', '9'][d as int]
}

/// Decimal notation of `n`, without leading zeros.
pub open spec fn decimal(n: nat) -> Seq<char>
    decreases n,
{
    if n < 10 {
        seq![digit(n)]
    } else {
        decimal(n / 10).push(digit(n % 10))
    }
}

pub fn digit_char(d: usize) -> (c: char)
    requires
        d < 10,
    ensures
        c == digit(d as nat),
{
    match d {
        0 => '0',
        1 => '1',
        2 => '2',
        3 => '3',
        4 => '4',
        5 => '5',
        6 => '6',
        7 => '7',
        8 => '8',
        _ => '9',
    }
}

/// Appends the decimal notation of `n`.
pub fn push_decimal(out: &mut Vec<char>, n: usize)
    ensures
        final(out)@ == old(out)@ + decimal(n as nat),
    decreases n,
{
    if n >= 10 {
        push_decimal(out, n / 10);
    }
    out.push(digit_char(n % 10));
}

/// `ESC [ {line + 1} ; {col + 1} H`: moves the cursor to a 0-based position.
pub open spec fn goto_seq(line: nat, col: nat) -> Seq<char> {
    seq!['\x1b', '['] + decimal(line + 1) + seq![';'] + decimal(col + 1) + seq!['H']
}

/// Moves the terminal cursor to `line`, `col` (both counted from 0).
pub fn goto(out: &mut Vec<char>, line: usize, col: usize)
    requires
        line < usize::MAX,
        col < usize::MAX,
    ensures
        final(out)@ == old(out)@ + goto_seq(line as nat, col as nat),
{
    out.push('\x1b');
    out.push('[');
    push_decimal(out, line + 1);
    out.push(';');
    push_decimal(out, col + 1);
    out.push('H');
}

/// Clear screen, optionally the scrollback buffer too, then cursor home.
pub open spec fn clear_screen_seq(discard_old: bool) -> Seq<char> {
    "\x1b[2J"@ + (if discard_old {
        "\x1b[3J"@
    } else {
        Seq::empty()
    }) + goto_seq(0, 0)
}

/// Clears the screen (and the scrollback buffer when `discard_old`) and
/// moves the cursor to the top-left corner.
pub fn clear_screen(out: &mut Vec<char>, discard_old: bool)
    ensures
        final(out)@ == old(out)@ + clear_screen_seq(discard_old),
{
    push_text(out, "\x1b[2J");
    if discard_old {
        push_text(out, "\x1b[3J");
    }
    goto(out, 0, 0);
    assert(out@ == old(out)@ + clear_screen_seq(discard_old));
}

/// Shows or hides the terminal cursor.
pub fn show_cursor(out: &mut Vec<char>, yay_or_nay: bool)
    ensures
        final(out)@ == old(out)@ + (if yay_or_nay {
            "\x1b[?25h"@
        } else {
            "\x1b[?25l"@
        }),
{
    if yay_or_nay {
        push_text(out, "\x1b[?25h");
    } else {
        push_text(out, "\x1b[?25l");
    }
}

/// Switches to or away from the alternative screen buffer.
pub fn alternative_screen_buffer(out: &mut Vec<char>, enable: bool)
    ensures
        final(out)@ == old(out)@ + (if enable {
            "\x1b[?1049h"@
        } else {
            "\x1b[?1049l"@
        }),
{
    if enable {
        push_text(out, "\x1b[?1049h");
    } else {
        push_text(out, "\x1b[?1049l");
    }
}

/// `times` copies of the ASCII character `c`.
pub fn repeat_ascii(c: char, times: usize) -> (r: Vec<char>)
    requires
        c < '\u{80}',
    ensures
        r@ == Seq::new(times as nat, |_i: int| c),
{
    let mut r: Vec<char> = Vec::new();
    let mut i: usize = 0;
    while i < times
        invariant
            i <= times,
            r@ == Seq::new(i as nat, |_i: int| c),
        decreases times - i,
    {
        r.push(c);
        i = i + 1;
        assert(r@ =~= Seq::new(i as nat, |_i: int| c));
    }
    r
}

} // verus!
