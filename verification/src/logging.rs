//! Diagnostic log lines.
//!
//! Every record the system writes is one line of the form
//! `[<timestamp>] [<level>] <message>`.  The formatting is a pure,
//! verified transform; only reading the clock is delegated to an
//! outside crate.  Appending the line to the log file is the embedding
//! application's part, and is best-effort by design.

use vstd::prelude::*;

use crate::{AppDataDir, LogPath};

verus! {

/// Severity of a log record.
#[derive(Clone, Copy, Debug, PartialEq, Eq, Structural)]
pub enum LogLevel {
    /// Ordinary progress records.
    Info,
    /// Recovered problems, such as a failed primary backend.
    Warn,
    /// Rejections and unrecovered failures.
    Error,
}

/// One record to append to the log, produced by the orchestration
/// steps and written out by the embedding application.
pub struct LogEntry {
    /// Severity of the record.
    pub level: LogLevel,
    /// The record's text, without timestamp or level tag.
    pub message: String,
}

/// The level's tag as it appears inside the line's second bracket pair.
pub open spec fn spec_level_label(level: LogLevel) -> Seq<char> {
    match level {
        LogLevel::Info => "INFO"@,
        LogLevel::Warn => "WARN"@,
        LogLevel::Error => "ERROR"@,
    }
}

/// A full log line: bracketed timestamp, bracketed level, message,
/// terminating newline.
pub open spec fn spec_log_line(timestamp: Seq<char>, level: LogLevel, message: Seq<char>) -> Seq<char> {
    "["@ + timestamp + "] ["@ + spec_level_label(level) + "] "@ + message + "\n"@
}

impl LogLevel {
    /// The tag under which this level is written.
    pub fn label(&self) -> (r: &'static str)
        ensures
            r@ == spec_level_label(*self),
    {
        match self {
            LogLevel::Info => "INFO",
            LogLevel::Warn => "WARN",
            LogLevel::Error => "ERROR",
        }
    }
}

/// Formats one log line from an already-rendered timestamp.
pub fn format_log_line(timestamp: &str, level: LogLevel, message: &str) -> (r: String)
    ensures
        r@ == spec_log_line(timestamp@, level, message@),
{
    let mut r = String::new();
    r.append("[");
    r.append(timestamp);
    r.append("] [");
    r.append(level.label());
    r.append("] ");
    r.append(message);
    r.append("\n");
    proof {
        assert(r@ =~= spec_log_line(timestamp@, level, message@));
    }
    r
}

/// Relies on chrono's `Local::now` and its `format` with
/// `%Y-%m-%d %H:%M:%S%.3f`: the current local wall-clock time rendered
/// with millisecond precision.  The rendering is at least 23 characters
/// (a four-digit-minimum year through the three millisecond digits);
/// nothing more can be promised of a clock read.
#[verifier::external_body]
fn local_timestamp() -> (r: String)
    ensures
        r@.len() >= 23,
{
    chrono::Local::now().format("%Y-%m-%d %H:%M:%S%.3f").to_string()
}

/// Formats one log line stamped with the current local time: some
/// timestamp of at least millisecond-rendering width, then the level
/// and the message exactly as given.
pub fn log_line_now(level: LogLevel, message: &str) -> (r: String)
    ensures
        exists|ts: Seq<char>|
            ts.len() >= 23 && r@ == #[trigger] spec_log_line(ts, level, message@),
{
    let stamp = local_timestamp();
    let line = format_log_line(stamp.as_str(), level, message);
    proof {
        assert(stamp@.len() >= 23 && line@ == spec_log_line(stamp@, level, message@));
    }
    line
}

/// The default log location under the application's data directory:
/// `<data dir><sep>logs<sep>launcher.log`, for the platform's
/// path separator.
pub fn default_log_path(app_data: &AppDataDir, sep: &str) -> (r: LogPath)
    ensures
        r.path@ == app_data.path@ + sep@ + "logs"@ + sep@ + "launcher.log"@,
{
    let mut path = String::new();
    path.append(app_data.path.as_str());
    path.append(sep);
    path.append("logs");
    path.append(sep);
    path.append("launcher.log");
    LogPath { path }
}

impl LogPath {
    /// The log file's location as text.
    pub fn text(&self) -> (r: &str)
        ensures
            r@ == self.path@,
    {
        self.path.as_str()
    }
}

} // verus!
