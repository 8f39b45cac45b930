//! Log records.
//!
//! The engine never touches the file system: a handler that wants something
//! logged describes the write and hands it back to the caller, which appends
//! `message` to the file at `path`.

use vstd::prelude::*;

verus! {

/// One pending append to a log file.
pub struct LogWrite {
    pub path: String,
    pub message: String,
}

/// Describes an append of `message` to the informational log.
pub fn info(message: &str) -> (w: LogWrite)
    ensures
        w.path@ == "/tmp/mient.log"@,
        w.message@ == message@,
{
    LogWrite { path: "/tmp/mient.log".to_owned(), message: message.to_owned() }
}

/// Describes an append of `message` to the error log.
pub fn error(message: &str) -> (w: LogWrite)
    ensures
        w.path@ == "/tmp/mient_errors.log"@,
        w.message@ == message@,
{
    LogWrite { path: "/tmp/mient_errors.log".to_owned(), message: message.to_owned() }
}

} // verus!
