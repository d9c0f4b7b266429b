//! The launch orchestration state machine.
//!
//! A launch runs: validate the whole request, attempt the primary
//! (terminal-multiplexer) backend, check shortly afterwards that the
//! child did not fail at once, and on any early failure fall back to a
//! direct shell launch.  Every decision of that machine is a pure,
//! verified function here; the embedding application spawns the
//! processes, sleeps through the liveness delay, polls the child, and
//! feeds the outcomes back in as plain values.  No partially validated
//! request ever reaches a command line.

use vstd::prelude::*;

use crate::command::{
    build_fallback_inline, build_multiplexer_args, join_with, spec_fallback_inline,
    spec_join_sep, spec_multiplexer_args,
};
use crate::decimal::{int_decimal, spec_int_decimal};
use crate::logging::{LogEntry, LogLevel};
use crate::validate::{
    first_unsafe_flag, is_safe_path, is_safe_profile, spec_safe_flag, spec_safe_path,
    spec_safe_profile,
};
use crate::{spec_result_consistent, str_views, LaunchRequest, LaunchRequestView, LaunchResult};

verus! {

/// How long the embedding application waits after a primary-backend
/// spawn before polling the child's exit status, in milliseconds.
/// A backend that fails near-instantly (bad profile, no window) is
/// caught by this delayed poll; a slower failure is not.
pub const LIVENESS_DELAY_MILLIS: u64 = 500;

/// What the delayed poll of the primary backend's child found.
pub enum LivenessPoll {
    /// The child already exited and reported failure; `code` is its
    /// exit code where the platform gave one.
    ExitedFailure { code: Option<i32> },
    /// The child is still running or exited successfully.
    RunningOrExitedOk,
    /// The poll itself failed; `error` is the reported reason.
    PollFailed { error: String },
}

/// The decision after validating a request: reject it with a recorded
/// reason, or proceed to the primary backend with its argument vector.
pub enum PrepareOutcome {
    /// The request failed validation; `result` carries the reason and
    /// is returned to the caller unspawned.
    Rejected { result: LaunchResult },
    /// The request is fully validated: spawn the multiplexer with
    /// `args`; `command` is the audit record of that invocation.
    Ready { args: Vec<String>, command: String },
}

/// The decision after the liveness poll: finish successfully, or try
/// the fallback backend.
pub enum LivenessVerdict {
    /// The primary backend is considered launched.
    Succeeded { result: LaunchResult },
    /// The primary backend failed early; the fallback is next.
    FallBack,
}

/// Index of the first flag at or after `i` that fails the flag
/// grammar, or `flags.len()` when all are safe.
pub open spec fn first_unsafe_from(flags: Seq<Seq<char>>, i: int) -> int
    decreases flags.len() - i,
{
    if i < 0 || i >= flags.len() {
        flags.len() as int
    } else if !spec_safe_flag(flags[i]) {
        i
    } else {
        first_unsafe_from(flags, i + 1)
    }
}

/// Any position preceded only by safe flags and itself unsafe or the
/// end is where `first_unsafe_from` lands.
proof fn lemma_first_unsafe_from_is(flags: Seq<Seq<char>>, i: int, j: int)
    requires
        0 <= i <= j <= flags.len(),
        j < flags.len() ==> !spec_safe_flag(flags[j]),
        forall|m: int| i <= m < j ==> spec_safe_flag(#[trigger] flags[m]),
    ensures
        first_unsafe_from(flags, i) == j,
    decreases j - i,
{
    if i < j {
        lemma_first_unsafe_from_is(flags, i + 1, j);
    }
}

/// The reason for which a request is rejected before any spawn, in the
/// stable, user-facing validation order: program path, project path,
/// terminal profile, each flag in input order, then existence of the
/// project directory and of the program itself.  `None` means the
/// request may be executed.
pub open spec fn spec_first_rejection(
    rv: LaunchRequestView,
    project_exists: bool,
    program_exists: bool,
) -> Option<Seq<char>> {
    let k = first_unsafe_from(rv.flags, 0);
    if !spec_safe_path(rv.program_path) {
        Some("Program path contains invalid characters"@)
    } else if !spec_safe_path(rv.project_path) {
        Some("Project path contains invalid characters"@)
    } else if !spec_safe_profile(rv.terminal_profile) {
        Some("Terminal profile contains invalid characters"@)
    } else if k < rv.flags.len() {
        Some("Invalid flag rejected: "@ + rv.flags[k])
    } else if !project_exists {
        Some("Project directory does not exist: "@ + rv.project_path)
    } else if !program_exists {
        Some("Program executable not found: "@ + rv.program_path)
    } else {
        None
    }
}

/// The audit record of the primary invocation: the multiplexer name
/// and its arguments, space-separated.
pub open spec fn spec_primary_command(rv: LaunchRequestView) -> Seq<char> {
    "wt "@ + spec_join_sep(spec_multiplexer_args(rv), " "@)
}

/// Builds a `LaunchResult` that rejects the request for `reason`.
fn rejection_result(reason: String) -> (r: LaunchResult)
    ensures
        !r.success,
        r.command@ == Seq::<char>::empty(),
        r.error == Some(reason),
{
    LaunchResult { success: false, command: String::new(), error: Some(reason) }
}

/// Validates the request in the stable order and decides whether to
/// spawn the primary backend.  `project_exists` and `program_exists`
/// say whether the two paths name something on the filesystem; they
/// are only consulted once every string check has passed.  The log
/// records the request and either the exact rejection reason (at
/// ERROR) or the exact command about to be attempted.
pub fn prepare_launch(request: &LaunchRequest, project_exists: bool, program_exists: bool) -> (r: (
    PrepareOutcome,
    Vec<LogEntry>,
))
    ensures
        ({
            let rejection = spec_first_rejection(request@, project_exists, program_exists);
            let log = r.1;
            &&& log@.len() == 2
            &&& log@[0].level == LogLevel::Info
            &&& log@[0].message@ == "Launch requested for: "@ + request@.project_path
            &&& match r.0 {
                PrepareOutcome::Rejected { result } => {
                    &&& rejection is Some
                    &&& spec_result_consistent(result)
                    &&& !result.success
                    &&& result.command@ == Seq::<char>::empty()
                    &&& result.error is Some
                    &&& result.error.unwrap()@ == rejection.unwrap()
                    &&& log@[1].level == LogLevel::Error
                    &&& log@[1].message@ == rejection.unwrap()
                },
                PrepareOutcome::Ready { args, command } => {
                    &&& rejection is None
                    &&& str_views(args@) == spec_multiplexer_args(request@)
                    &&& command@ == spec_primary_command(request@)
                    &&& log@[1].level == LogLevel::Info
                    &&& log@[1].message@ == "Executing: "@ + command@
                },
            }
        }),
{
    let mut log: Vec<LogEntry> = Vec::new();
    let mut requested = String::new();
    requested.append("Launch requested for: ");
    requested.append(request.project_path.as_str());
    log.push(LogEntry { level: LogLevel::Info, message: requested });

    if !is_safe_path(request.program_path.as_str()) {
        let msg = String::from_str("Program path contains invalid characters");
        log.push(LogEntry { level: LogLevel::Error, message: msg.clone() });
        return (PrepareOutcome::Rejected { result: rejection_result(msg) }, log);
    }
    if !is_safe_path(request.project_path.as_str()) {
        let msg = String::from_str("Project path contains invalid characters");
        log.push(LogEntry { level: LogLevel::Error, message: msg.clone() });
        return (PrepareOutcome::Rejected { result: rejection_result(msg) }, log);
    }
    if !is_safe_profile(request.terminal_profile.as_str()) {
        let msg = String::from_str("Terminal profile contains invalid characters");
        log.push(LogEntry { level: LogLevel::Error, message: msg.clone() });
        return (PrepareOutcome::Rejected { result: rejection_result(msg) }, log);
    }
    match first_unsafe_flag(&request.flags) {
        Some(i) => {
            proof {
                lemma_first_unsafe_from_is(request@.flags, 0, i as int);
            }
            let mut msg = String::new();
            msg.append("Invalid flag rejected: ");
            msg.append(request.flags[i].as_str());
            log.push(LogEntry { level: LogLevel::Error, message: msg.clone() });
            return (PrepareOutcome::Rejected { result: rejection_result(msg) }, log);
        },
        None => {
            proof {
                lemma_first_unsafe_from_is(request@.flags, 0, request@.flags.len() as int);
            }
        },
    }
    if !project_exists {
        let mut msg = String::new();
        msg.append("Project directory does not exist: ");
        msg.append(request.project_path.as_str());
        log.push(LogEntry { level: LogLevel::Error, message: msg.clone() });
        return (PrepareOutcome::Rejected { result: rejection_result(msg) }, log);
    }
    if !program_exists {
        let mut msg = String::new();
        msg.append("Program executable not found: ");
        msg.append(request.program_path.as_str());
        log.push(LogEntry { level: LogLevel::Error, message: msg.clone() });
        return (PrepareOutcome::Rejected { result: rejection_result(msg) }, log);
    }

    let args = build_multiplexer_args(request);
    let joined = join_with(&args, " ");
    let mut command = String::new();
    command.append("wt ");
    command.append(joined.as_str());
    let mut executing = String::new();
    executing.append("Executing: ");
    executing.append(command.as_str());
    log.push(LogEntry { level: LogLevel::Info, message: executing });
    (PrepareOutcome::Ready { args, command }, log)
}

/// The records to write when the primary backend could not be spawned
/// at all: the OS error at WARN, then the fallback announcement.
pub fn note_primary_spawn_failure(error: &str) -> (log: Vec<LogEntry>)
    ensures
        log@.len() == 2,
        log@[0].level == LogLevel::Warn,
        log@[0].message@ == "wt spawn failed: "@ + error@,
        log@[1].level == LogLevel::Info,
        log@[1].message@ == "Falling back to pwsh direct launch"@,
{
    let mut log: Vec<LogEntry> = Vec::new();
    let mut msg = String::new();
    msg.append("wt spawn failed: ");
    msg.append(error);
    log.push(LogEntry { level: LogLevel::Warn, message: msg });
    log.push(LogEntry {
        level: LogLevel::Info,
        message: String::from_str("Falling back to pwsh direct launch"),
    });
    log
}

/// The exit code's rendering inside the early-exit warning.
pub open spec fn spec_code_text(code: Option<i32>) -> Seq<char> {
    match code {
        Some(c) => spec_int_decimal(c as int),
        None => "unknown"@,
    }
}

/// Decides the launch's fate after the delayed poll of the primary
/// child, the explicit tri-state: an early failure falls back (with
/// the exit code logged at WARN), a child still running or exited
/// successfully is a success, and a poll error is treated
/// optimistically as a success, with the error logged at WARN.
pub fn judge_liveness(poll: &LivenessPoll, command: &str) -> (r: (LivenessVerdict, Vec<LogEntry>))
    ensures
        ({
            let log = r.1;
            match poll {
                LivenessPoll::ExitedFailure { code } => {
                    &&& r.0 is FallBack
                    &&& log@.len() == 2
                    &&& log@[0].level == LogLevel::Warn
                    &&& log@[0].message@ == "wt exited with code: "@ + spec_code_text(*code)
                    &&& log@[1].level == LogLevel::Info
                    &&& log@[1].message@ == "Falling back to pwsh direct launch"@
                },
                LivenessPoll::RunningOrExitedOk => {
                    &&& r.0 matches LivenessVerdict::Succeeded { result }
                        && spec_result_consistent(result)
                        && result.success
                        && result.command@ == command@
                        && result.error is None
                    &&& log@.len() == 1
                    &&& log@[0].level == LogLevel::Info
                    &&& log@[0].message@ == "Launch successful via wt"@
                },
                LivenessPoll::PollFailed { error } => {
                    &&& r.0 matches LivenessVerdict::Succeeded { result }
                        && spec_result_consistent(result)
                        && result.success
                        && result.command@ == command@
                        && result.error is None
                    &&& log@.len() == 1
                    &&& log@[0].level == LogLevel::Warn
                    &&& log@[0].message@ == "Error checking wt status: "@ + error@
                },
            }
        }),
{
    let mut log: Vec<LogEntry> = Vec::new();
    match poll {
        LivenessPoll::ExitedFailure { code } => {
            let mut msg = String::new();
            msg.append("wt exited with code: ");
            match code {
                Some(c) => {
                    let rendered = int_decimal(*c);
                    msg.append(rendered.as_str());
                },
                None => {
                    msg.append("unknown");
                },
            }
            log.push(LogEntry { level: LogLevel::Warn, message: msg });
            log.push(LogEntry {
                level: LogLevel::Info,
                message: String::from_str("Falling back to pwsh direct launch"),
            });
            (LivenessVerdict::FallBack, log)
        },
        LivenessPoll::RunningOrExitedOk => {
            log.push(LogEntry {
                level: LogLevel::Info,
                message: String::from_str("Launch successful via wt"),
            });
            let result = LaunchResult {
                success: true,
                command: String::from_str(command),
                error: None,
            };
            (LivenessVerdict::Succeeded { result }, log)
        },
        LivenessPoll::PollFailed { error } => {
            let mut msg = String::new();
            msg.append("Error checking wt status: ");
            msg.append(error.as_str());
            log.push(LogEntry { level: LogLevel::Warn, message: msg });
            let result = LaunchResult {
                success: true,
                command: String::from_str(command),
                error: None,
            };
            (LivenessVerdict::Succeeded { result }, log)
        },
    }
}

/// The arguments handed to the fallback shell: keep the window open,
/// set the working directory, and run the inline command string.
pub open spec fn spec_fallback_args(rv: LaunchRequestView) -> Seq<Seq<char>> {
    seq![
        "-NoExit"@,
        "-WorkingDirectory"@,
        rv.project_path,
        "-Command"@,
        spec_fallback_inline(rv),
    ]
}

/// The audit record of the fallback invocation.
pub open spec fn spec_fallback_command(rv: LaunchRequestView) -> Seq<char> {
    "pwsh -NoExit -WorkingDirectory \""@ + rv.project_path + "\" -Command \""@
        + spec_fallback_inline(rv) + "\""@
}

/// Builds the fallback backend's argument vector and audit record, and
/// the log record announcing the attempt.
pub fn prepare_fallback(request: &LaunchRequest) -> (r: (Vec<String>, String, Vec<LogEntry>))
    ensures
        str_views(r.0@) == spec_fallback_args(request@),
        r.1@ == spec_fallback_command(request@),
        r.2@.len() == 1,
        r.2@[0].level == LogLevel::Info,
        r.2@[0].message@ == "Executing fallback: "@ + spec_fallback_command(request@),
{
    let inline = build_fallback_inline(request);
    let mut command = String::new();
    command.append("pwsh -NoExit -WorkingDirectory \"");
    command.append(request.project_path.as_str());
    command.append("\" -Command \"");
    command.append(inline.as_str());
    command.append("\"");

    let mut args: Vec<String> = Vec::new();
    args.push(String::from_str("-NoExit"));
    args.push(String::from_str("-WorkingDirectory"));
    args.push(request.project_path.clone());
    args.push(String::from_str("-Command"));
    args.push(inline);
    proof {
        assert(str_views(args@) =~= spec_fallback_args(request@));
    }

    let mut announce = String::new();
    announce.append("Executing fallback: ");
    announce.append(command.as_str());
    let mut log: Vec<LogEntry> = Vec::new();
    log.push(LogEntry { level: LogLevel::Info, message: announce });
    (args, command, log)
}

/// Concludes the fallback attempt from its spawn outcome: a spawn is a
/// success; a spawn failure ends the launch as failed, with the OS
/// error in the result and at ERROR in the log.  Either way the result
/// carries the fallback command line for audit.
pub fn conclude_fallback(command: &str, spawn_error: &Option<String>) -> (r: (
    LaunchResult,
    Vec<LogEntry>,
))
    ensures
        ({
            let result = r.0;
            let log = r.1;
            &&& spec_result_consistent(result)
            &&& result.command@ == command@
            &&& log@.len() == 1
            &&& match spawn_error {
                None => {
                    &&& result.success
                    &&& result.error is None
                    &&& log@[0].level == LogLevel::Info
                    &&& log@[0].message@ == "Launch successful via pwsh fallback"@
                },
                Some(e) => {
                    &&& !result.success
                    &&& result.error is Some
                    &&& result.error.unwrap()@ == "pwsh fallback also failed: "@ + e@
                    &&& log@[0].level == LogLevel::Error
                    &&& log@[0].message@ == "pwsh fallback also failed: "@ + e@
                },
            }
        }),
{
    let mut log: Vec<LogEntry> = Vec::new();
    match spawn_error {
        None => {
            log.push(LogEntry {
                level: LogLevel::Info,
                message: String::from_str("Launch successful via pwsh fallback"),
            });
            let result = LaunchResult {
                success: true,
                command: String::from_str(command),
                error: None,
            };
            (result, log)
        },
        Some(e) => {
            let mut msg = String::new();
            msg.append("pwsh fallback also failed: ");
            msg.append(e.as_str());
            log.push(LogEntry { level: LogLevel::Error, message: msg.clone() });
            let result = LaunchResult {
                success: false,
                command: String::from_str(command),
                error: Some(msg),
            };
            (result, log)
        },
    }
}

} // verus!
