//! The terminal boundary: prompts, line input and masked input, each behind
//! a trusted wrapper.  Nothing is promised about what the user types, so
//! every caller is verified for every possible input.

use std::io::Write;
use vstd::prelude::*;

verus! {

/// Relies on std::io::Stdout::flush: writes `s` without a newline and
/// flushes, so the next read happens beside the prompt.
#[verifier::external_body]
pub(crate) fn skriv_prompt(s: &str) {
    let mut ut = std::io::stdout();
    let _ = write!(ut, "{}", s);
    let _ = ut.flush();
}

/// Relies on std::io::Stdout::write_fmt, through writeln: prints one line.
#[verifier::external_body]
pub(crate) fn skriv_rad(s: &str) {
    let _ = writeln!(std::io::stdout(), "{}", s);
}

/// Relies on std::io::Stdin::read_line: hands back one raw line including
/// its terminator; an empty string means end of input, `None` a failed read.
#[verifier::external_body]
pub(crate) fn las_rad() -> Option<String> {
    let mut rad = String::new();
    match std::io::stdin().read_line(&mut rad) {
        Ok(_) => Some(rad),
        Err(_) => None,
    }
}

/// Relies on std::io::IsTerminal::is_terminal: whether standard input is an
/// interactive terminal, which decides if input may be echoed.
#[verifier::external_body]
pub(crate) fn stdin_ar_terminal() -> bool {
    std::io::IsTerminal::is_terminal(&std::io::stdin())
}

/// Relies on rpassword::prompt_password: reads one line with echo off, for
/// credentials that must not appear on screen.
#[verifier::external_body]
pub(crate) fn las_losenord(prompt: &str) -> Option<String> {
    rpassword::prompt_password(prompt).ok()
}

} // verus!
