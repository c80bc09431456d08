//! Turning off the echo of typed input on the controlling terminal.
use vstd::prelude::*;
use termios::Termios;

verus! {

#[verifier::external_type_specification]
#[verifier::external_body]
pub struct ExTermios(termios::Termios);

/// Relies on `termios::Termios::from_fd`: the terminal attributes of
/// standard input (descriptor 0), `None` where they cannot be read.
#[verifier::external_body]
fn read_console_mode() -> Option<Termios> {
    termios::Termios::from_fd(0).ok()
}

/// Relies on `termios::tcsetattr` with `TCSAFLUSH`: applies `mode` to
/// standard input; `true` where the call succeeded.
#[verifier::external_body]
fn write_console_mode(mode: &Termios) -> bool
    opens_invariants none
    no_unwind
{
    termios::tcsetattr(0, termios::TCSAFLUSH, mode).is_ok()
}

/// Relies on the `c_lflag` field of `termios::Termios`: the local mode flags.
#[verifier::external_body]
fn local_flags(mode: &Termios) -> u32 {
    mode.c_lflag
}

/// Relies on the `c_lflag` field of `termios::Termios`: a copy of `mode`
/// with other local mode flags.
#[verifier::external_body]
fn with_local_flags(mode: &Termios, flags: u32) -> Termios {
    let mut m = *mode;
    m.c_lflag = flags;
    m
}

/// Relies on `termios::ECHO` (Linux): the local mode flag 0o10 that makes
/// the terminal echo input.
#[verifier::external_body]
fn echo_flag() -> (r: u32)
    ensures
        r == 0o10,
{
    termios::ECHO
}

/// Local mode flags with the echo flag cleared and every other flag kept.
pub fn without_echo(flags: u32) -> (r: u32)
    ensures
        r == flags & !0o10u32,
{
    flags & !echo_flag()
}

/// Turns off input echo on standard input. Returns the mode it had before
/// where that mode could be read and the quiet mode applied, `None` where
/// either failed.
pub fn disable_echo() -> (r: Option<Termios>) {
    match read_console_mode() {
        Some(old) => {
            let quiet = with_local_flags(&old, without_echo(local_flags(&old)));
            if write_console_mode(&quiet) {
                Some(old)
            } else {
                None
            }
        },
        None => None,
    }
}

/// Puts standard input back into `mode`; a failure is ignored.
pub fn restore(mode: &Termios)
    opens_invariants none
    no_unwind
{
    write_console_mode(mode);
}

/// Keeps input echo turned off until it is dropped; holds the terminal
/// mode to go back to when turning echo off succeeded.
pub struct NoEcho {
    old_mode: Option<Termios>,
}

impl NoEcho {
    /// Disable input echoing until the returned value is dropped.
    pub fn begin() -> (r: NoEcho) {
        NoEcho { old_mode: disable_echo() }
    }
}

impl Drop for NoEcho {
    fn drop(&mut self)
        opens_invariants none
        no_unwind
    {
        if let Some(old) = &self.old_mode {
            restore(old);
        }
        self.old_mode = None;
    }
}

} // verus!
