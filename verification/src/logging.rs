//! Severity of log messages.

use vstd::prelude::*;

verus! {

/// The severity of a log message.
#[derive(Copy, Clone, Debug, PartialEq, Eq, Structural)]
pub enum LogLevel {
    Info,
    Warning,
    Error,
}

} // verus!
