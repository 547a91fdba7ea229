//! Log-message formatting: a severity, a timestamp and a message composed
//! into one line for the terminal. Only the timestamp comes from outside;
//! the composition itself is verified against the line's exact shape.

use vstd::prelude::*;
use vstd::string::StringExecFns;

verus! {

/// Severity of a message sent to the terminal.
#[derive(Clone, Copy, Debug, PartialEq, Eq, Structural)]
pub enum LogLevel {
    Fatal,
    Error,
    Warning,
    Info,
}

impl LogLevel {
    /// The fixed-width label a severity prints as.
    pub open spec fn label_spec(self) -> Seq<char> {
        match self {
            LogLevel::Fatal => "FATAL"@,
            LogLevel::Error => "ERROR"@,
            LogLevel::Warning => " WARN"@,
            LogLevel::Info => " INFO"@,
        }
    }

    pub fn label(self) -> (r: &'static str)
        ensures
            r@ == self.label_spec(),
    {
        match self {
            LogLevel::Fatal => "FATAL",
            LogLevel::Error => "ERROR",
            LogLevel::Warning => " WARN",
            LogLevel::Info => " INFO",
        }
    }
}

/// The exact shape of one log line.
pub open spec fn log_line(timestamp: Seq<char>, severity: LogLevel, message: Seq<char>) -> Seq<
    char,
> {
    "[ "@ + timestamp + " ]  => "@ + severity.label_spec() + ":  "@ + message
}

/// Compose one log line from an already-rendered timestamp.
pub fn format_log_message(timestamp: &str, severity: LogLevel, message: &str) -> (r: String)
    ensures
        r@ == log_line(timestamp@, severity, message@),
{
    let mut r = String::from_str("[ ");
    r.append(timestamp);
    r.append(" ]  => ");
    r.append(severity.label());
    r.append(":  ");
    r.append(message);
    proof {
        assert(r@ =~= log_line(timestamp@, severity, message@));
    }
    r
}

/// Relies on chrono's `Local::now` and its formatter: the current local time
/// rendered as date and clock time. The value depends on the clock and the
/// machine's time zone, so nothing is promised of it.
#[verifier::external_body]
fn local_timestamp() -> String {
    chrono::offset::Local::now().format("%Y-%m-%d | %H:%M:%S").to_string()
}

/// One log line carrying the current local time: whatever the clock said,
/// the line has the exact composed shape.
pub fn create_log_message(message: &str, severity: LogLevel) -> (r: String)
    ensures
        exists|ts: Seq<char>| r@ == log_line(ts, severity, message@),
{
    let ts = local_timestamp();
    let r = format_log_message(ts.as_str(), severity, message);
    proof {
        assert(r@ == log_line(ts@, severity, message@));
    }
    r
}

} // verus!
