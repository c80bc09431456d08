//! Wall-clock time of day, as shown in timestamps and the status bar.
use vstd::prelude::*;
use chrono::Timelike;

verus! {

/// A time of day in whole seconds.
#[derive(Clone, Copy, Debug, PartialEq, Eq)]
pub struct ClockTime {
    pub hour: u32,
    pub minute: u32,
    pub second: u32,
}

impl ClockTime {
    pub open spec fn wf(&self) -> bool {
        self.hour < 24 && self.minute < 60 && self.second < 60
    }

    /// A time of day from its parts.
    pub fn new(hour: u32, minute: u32, second: u32) -> (r: ClockTime)
        requires
            hour < 24,
            minute < 60,
            second < 60,
        ensures
            r == (ClockTime { hour, minute, second }),
            r.wf(),
    {
        ClockTime { hour, minute, second }
    }
}

/// Relies on `chrono::Local::now` and its `Timelike` accessors: the current
/// local hour (0 to 23), minute (0 to 59) and second (0 to 59).
#[verifier::external_body]
fn local_hms() -> (r: (u32, u32, u32))
    ensures
        r.0 < 24,
        r.1 < 60,
        r.2 < 60,
{
    let t = chrono::Local::now();
    (t.hour(), t.minute(), t.second())
}

/// The current local time of day.
pub fn now() -> (r: ClockTime)
    ensures
        r.wf(),
{
    let (hour, minute, second) = local_hms();
    ClockTime { hour, minute, second }
}

/// `n` as two decimal digits, for `n < 100`.
pub open spec fn two_digits(n: nat) -> Seq<char> {
    seq![crate::terminal::digit(n / 10), crate::terminal::digit(n % 10)]
}

/// `HH:MM:SS`.
pub open spec fn hms_text(t: ClockTime) -> Seq<char> {
    two_digits(t.hour as nat) + seq![':'] + two_digits(t.minute as nat) + seq![':']
        + two_digits(t.second as nat)
}

fn push_two_digits(out: &mut Vec<char>, n: u32)
    requires
        n < 100,
    ensures
        final(out)@ == old(out)@ + two_digits(n as nat),
{
    out.push(crate::terminal::digit_char((n / 10) as usize));
    out.push(crate::terminal::digit_char((n % 10) as usize));
    assert(out@ =~= old(out)@ + two_digits(n as nat));
}

/// Appends `t` as `HH:MM:SS`.
pub fn push_hms(out: &mut Vec<char>, t: ClockTime)
    requires
        t.wf(),
    ensures
        final(out)@ == old(out)@ + hms_text(t),
{
    push_two_digits(out, t.hour);
    out.push(':');
    push_two_digits(out, t.minute);
    out.push(':');
    push_two_digits(out, t.second);
    assert(out@ =~= old(out)@ + hms_text(t));
}

} // verus!
