use tab_launcher::launcher::{
    conclude_fallback, judge_liveness, note_primary_spawn_failure, prepare_fallback,
    prepare_launch, LivenessPoll, LivenessVerdict, PrepareOutcome, LIVENESS_DELAY_MILLIS,
};
use tab_launcher::logging::LogLevel;
use tab_launcher::LaunchRequest;

fn request(flags: &[&str]) -> LaunchRequest {
    LaunchRequest {
        program_path: "/bin/ls".to_string(),
        project_path: "/tmp".to_string(),
        terminal_profile: "Default".to_string(),
        flags: flags.iter().map(|f| f.to_string()).collect(),
        remote_control: false,
        pre_launch_command: None,
    }
}

#[test]
fn liveness_delay_is_fixed() {
    assert_eq!(LIVENESS_DELAY_MILLIS, 500);
}

#[test]
fn scenario_primary_success() {
    // A valid request proceeds to the primary backend, and a child that
    // is still running after the delay counts as a success.
    let (outcome, log) = prepare_launch(&request(&["--help"]), true, true);
    assert_eq!(log.len(), 2);
    assert_eq!(log[0].level, LogLevel::Info);
    assert_eq!(log[0].message, "Launch requested for: /tmp");
    match outcome {
        PrepareOutcome::Ready { args, command } => {
            assert_eq!(args[args.len() - 3], "--");
            assert_eq!(args[args.len() - 2], "/bin/ls");
            assert_eq!(args[args.len() - 1], "--help");
            assert_eq!(command, "wt new-tab --profile Default -d /tmp -- /bin/ls --help");
            assert_eq!(log[1].level, LogLevel::Info);
            assert_eq!(log[1].message, format!("Executing: {}", command));

            let (verdict, poll_log) = judge_liveness(&LivenessPoll::RunningOrExitedOk, &command);
            match verdict {
                LivenessVerdict::Succeeded { result } => {
                    assert!(result.success);
                    assert_eq!(result.command, command);
                    assert!(result.error.is_none());
                },
                LivenessVerdict::FallBack => panic!("a running child is a success"),
            }
            assert_eq!(poll_log.len(), 1);
            assert_eq!(poll_log[0].message, "Launch successful via wt");
        },
        PrepareOutcome::Rejected { result } => panic!("unexpected rejection: {:?}", result.error),
    }
}

#[test]
fn scenario_primary_spawn_failure_falls_back() {
    // The multiplexer itself is missing: the spawn error is logged and
    // the fallback shell carries the quoted single-line command.
    let (outcome, _log) = prepare_launch(&request(&["--help"]), true, true);
    assert!(matches!(outcome, PrepareOutcome::Ready { .. }));

    let spawn_log = note_primary_spawn_failure("program not found");
    assert_eq!(spawn_log.len(), 2);
    assert_eq!(spawn_log[0].level, LogLevel::Warn);
    assert_eq!(spawn_log[0].message, "wt spawn failed: program not found");
    assert_eq!(spawn_log[1].message, "Falling back to pwsh direct launch");

    let (args, command, fb_log) = prepare_fallback(&request(&["--help"]));
    assert_eq!(
        args,
        vec![
            "-NoExit".to_string(),
            "-WorkingDirectory".to_string(),
            "/tmp".to_string(),
            "-Command".to_string(),
            "& '/bin/ls' '--help'".to_string(),
        ]
    );
    assert_eq!(
        command,
        "pwsh -NoExit -WorkingDirectory \"/tmp\" -Command \"& '/bin/ls' '--help'\""
    );
    assert!(command.contains("& '/bin/ls' '--help'"));
    assert_eq!(fb_log.len(), 1);
    assert_eq!(fb_log[0].message, format!("Executing fallback: {}", command));

    let (result, done_log) = conclude_fallback(&command, &None);
    assert!(result.success);
    assert_eq!(result.command, command);
    assert!(result.error.is_none());
    assert_eq!(done_log[0].message, "Launch successful via pwsh fallback");
}

#[test]
fn scenario_injection_flag_rejected_before_any_spawn() {
    let (outcome, log) = prepare_launch(&request(&["--model=$(whoami)"]), true, true);
    match outcome {
        PrepareOutcome::Rejected { result } => {
            assert!(!result.success);
            assert_eq!(result.command, "");
            assert_eq!(
                result.error.as_deref(),
                Some("Invalid flag rejected: --model=$(whoami)")
            );
        },
        PrepareOutcome::Ready { .. } => panic!("injection flag must not reach a spawn"),
    }
    assert_eq!(log.len(), 2);
    assert_eq!(log[1].level, LogLevel::Error);
    assert_eq!(log[1].message, "Invalid flag rejected: --model=$(whoami)");
}

#[test]
fn rejection_messages_follow_validation_order() {
    let mut r = request(&[]);
    r.program_path = "bad;path".to_string();
    r.project_path = "also|bad".to_string();
    let (outcome, _) = prepare_launch(&r, true, true);
    match outcome {
        PrepareOutcome::Rejected { result } => {
            assert_eq!(
                result.error.as_deref(),
                Some("Program path contains invalid characters")
            );
        },
        _ => panic!("expected rejection"),
    }

    let mut r = request(&[]);
    r.project_path = "also|bad".to_string();
    let (outcome, _) = prepare_launch(&r, true, true);
    match outcome {
        PrepareOutcome::Rejected { result } => {
            assert_eq!(
                result.error.as_deref(),
                Some("Project path contains invalid characters")
            );
        },
        _ => panic!("expected rejection"),
    }

    let mut r = request(&[]);
    r.terminal_profile = "".to_string();
    let (outcome, _) = prepare_launch(&r, true, true);
    match outcome {
        PrepareOutcome::Rejected { result } => {
            assert_eq!(
                result.error.as_deref(),
                Some("Terminal profile contains invalid characters")
            );
        },
        _ => panic!("expected rejection"),
    }
}

#[test]
fn missing_paths_are_validation_failures() {
    let (outcome, _) = prepare_launch(&request(&[]), false, true);
    match outcome {
        PrepareOutcome::Rejected { result } => {
            assert_eq!(
                result.error.as_deref(),
                Some("Project directory does not exist: /tmp")
            );
        },
        _ => panic!("expected rejection"),
    }

    let (outcome, _) = prepare_launch(&request(&[]), true, false);
    match outcome {
        PrepareOutcome::Rejected { result } => {
            assert_eq!(
                result.error.as_deref(),
                Some("Program executable not found: /bin/ls")
            );
        },
        _ => panic!("expected rejection"),
    }
}

#[test]
fn early_exit_falls_back_with_code() {
    let (verdict, log) = judge_liveness(
        &LivenessPoll::ExitedFailure { code: Some(1) },
        "wt new-tab",
    );
    assert!(matches!(verdict, LivenessVerdict::FallBack));
    assert_eq!(log.len(), 2);
    assert_eq!(log[0].level, LogLevel::Warn);
    assert_eq!(log[0].message, "wt exited with code: 1");
    assert_eq!(log[1].message, "Falling back to pwsh direct launch");

    let (verdict, log) = judge_liveness(
        &LivenessPoll::ExitedFailure { code: None },
        "wt new-tab",
    );
    assert!(matches!(verdict, LivenessVerdict::FallBack));
    assert_eq!(log[0].message, "wt exited with code: unknown");

    let (verdict, log) = judge_liveness(
        &LivenessPoll::ExitedFailure { code: Some(-7) },
        "wt new-tab",
    );
    assert!(matches!(verdict, LivenessVerdict::FallBack));
    assert_eq!(log[0].message, "wt exited with code: -7");
}

#[test]
fn poll_error_is_treated_as_success() {
    let (verdict, log) = judge_liveness(
        &LivenessPoll::PollFailed { error: "status unavailable".to_string() },
        "wt new-tab",
    );
    match verdict {
        LivenessVerdict::Succeeded { result } => {
            assert!(result.success);
            assert_eq!(result.command, "wt new-tab");
            assert!(result.error.is_none());
        },
        LivenessVerdict::FallBack => panic!("a poll error is treated optimistically"),
    }
    assert_eq!(log.len(), 1);
    assert_eq!(log[0].level, LogLevel::Warn);
    assert_eq!(log[0].message, "Error checking wt status: status unavailable");
}

#[test]
fn fallback_failure_carries_command_and_error() {
    let (result, log) = conclude_fallback(
        "pwsh -NoExit",
        &Some("no such executable".to_string()),
    );
    assert!(!result.success);
    assert_eq!(result.command, "pwsh -NoExit");
    assert_eq!(
        result.error.as_deref(),
        Some("pwsh fallback also failed: no such executable")
    );
    assert_eq!(log.len(), 1);
    assert_eq!(log[0].level, LogLevel::Error);
    assert_eq!(log[0].message, "pwsh fallback also failed: no such executable");
}

#[test]
fn pre_launch_joins_fallback_inline_command() {
    let mut r = request(&["--help"]);
    r.pre_launch_command = Some("conda activate dev".to_string());
    let (args, command, _) = prepare_fallback(&r);
    assert_eq!(args[args.len() - 1], "conda activate dev; & '/bin/ls' '--help'");
    assert_eq!(
        command,
        "pwsh -NoExit -WorkingDirectory \"/tmp\" -Command \"conda activate dev; & '/bin/ls' '--help'\""
    );
}
