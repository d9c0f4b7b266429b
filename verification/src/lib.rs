//! Safe launching of a command-line program in a new terminal tab.
//!
//! The library validates untrusted request fields against injection-safe
//! grammars, builds correctly quoted command lines for two terminal
//! backends, and decides the launch orchestration (primary attempt,
//! liveness check, fallback) as pure, verified steps.  All process
//! spawning, file access and clock reads stay with the embedding
//! application; the library hands it plain values and exact contracts.

use vstd::prelude::*;

pub mod command;
pub mod decimal;
pub mod detect;
pub mod launcher;
pub mod logging;
pub mod logview;
pub mod quoting;
pub mod validate;

verus! {

/// The views of a sequence of strings, one character sequence each.
pub open spec fn str_views(v: Seq<String>) -> Seq<Seq<char>> {
    v.map_values(|s: String| s@)
}

/// The mathematical content of a [`LaunchRequest`]: every field as the
/// plain value its contracts speak of.
pub ghost struct LaunchRequestView {
    /// View of the program path.
    pub program_path: Seq<char>,
    /// View of the working directory.
    pub project_path: Seq<char>,
    /// View of the terminal profile name.
    pub terminal_profile: Seq<char>,
    /// Views of the flags, in order.
    pub flags: Seq<Seq<char>>,
    /// Whether the `remote-control` token is requested.
    pub remote_control: bool,
    /// View of the optional pre-launch shell command.
    pub pre_launch_command: Option<Seq<char>>,
}

/// A caller-supplied description of one launch: what to run, where,
/// in which terminal profile, and with which extra flags.
pub struct LaunchRequest {
    /// Path or bare name of the program to launch.
    pub program_path: String,
    /// Directory that becomes the new terminal's working directory.
    pub project_path: String,
    /// Name of the terminal profile to open.
    pub terminal_profile: String,
    /// Command-line flags appended after the program, in order.
    pub flags: Vec<String>,
    /// When set, the literal `remote-control` token follows the program path.
    pub remote_control: bool,
    /// Optional shell command to run first in the same shell session.
    pub pre_launch_command: Option<String>,
}

impl View for LaunchRequest {
    type V = LaunchRequestView;

    open spec fn view(&self) -> LaunchRequestView {
        LaunchRequestView {
            program_path: self.program_path@,
            project_path: self.project_path@,
            terminal_profile: self.terminal_profile@,
            flags: str_views(self.flags@),
            remote_control: self.remote_control,
            pre_launch_command: match self.pre_launch_command {
                Some(c) => Some(c@),
                None => None,
            },
        }
    }
}

/// The outcome of one launch attempt, kept for audit even on failure.
pub struct LaunchResult {
    /// Whether a backend accepted the launch.
    pub success: bool,
    /// The exact command line that was attempted.
    pub command: String,
    /// Human-readable explanation, present exactly when `success` is false.
    pub error: Option<String>,
}

/// The invariant of every result this library produces: an explanation
/// is present exactly when the launch did not succeed.
pub open spec fn spec_result_consistent(r: LaunchResult) -> bool {
    r.success <==> r.error is None
}

/// The current log file's location, owned by the embedding application
/// and handed to the library where a contract needs it.
pub struct LogPath {
    /// Filesystem path of the log file.
    pub path: String,
}

/// The application's private data directory; log access is confined to it.
pub struct AppDataDir {
    /// Filesystem path of the data directory.
    pub path: String,
}

} // verus!
