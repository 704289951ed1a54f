//! Console access for the memory-mapped keyboard and the trap routines.
//! Each function here wraps one host I/O call; nothing is promised of what
//! arrives or leaves, so every caller is verified for every possible byte.
//! A host I/O failure aborts the process, as the machine model has no
//! recoverable I/O fault.

use std::io::Read;
use std::io::Write;
use vstd::prelude::*;

verus! {

/// Relies on std::io::Stdin::read_exact: blocks until one byte arrives on
/// standard input. Which byte comes back depends on the host, so nothing is
/// promised of it.
#[verifier::external_body]
pub(crate) fn read_byte() -> u8 {
    let mut buf = [0u8; 1];
    std::io::stdin().read_exact(&mut buf).expect("input stream closed");
    buf[0]
}

/// Relies on std::io::Stdout::write_fmt (through `write!`): prints the byte
/// as a character on standard output.
#[verifier::external_body]
pub(crate) fn write_byte(c: u8) {
    write!(std::io::stdout(), "{}", c as char).expect("failed to write");
}

/// Relies on std::io::Stdout::write_fmt (through `write!`): prints the text
/// on standard output.
#[verifier::external_body]
pub(crate) fn write_text(s: &str) {
    write!(std::io::stdout(), "{}", s).expect("failed to write");
}

/// Relies on std::io::Stdout::write_fmt (through `writeln!`): prints the
/// text on standard output, followed by a line break.
#[verifier::external_body]
pub(crate) fn write_line(s: &str) {
    writeln!(std::io::stdout(), "{}", s).expect("failed to write");
}

/// Relies on std::io::Stdout::flush: pushes buffered output to the host
/// console.
#[verifier::external_body]
pub(crate) fn flush() {
    std::io::stdout().flush().expect("failed to flush");
}

} // verus!
