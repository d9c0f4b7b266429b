use tab_launcher::command::{build_pwsh_cmd, build_multiplexer_args, join_with};
use tab_launcher::quoting::quote_single;
use tab_launcher::LaunchRequest;

fn request(
    program_path: &str,
    flags: &[&str],
    remote_control: bool,
    pre_launch_command: Option<&str>,
) -> LaunchRequest {
    LaunchRequest {
        program_path: program_path.to_string(),
        project_path: "/tmp".to_string(),
        terminal_profile: "Default".to_string(),
        flags: flags.iter().map(|f| f.to_string()).collect(),
        remote_control,
        pre_launch_command: pre_launch_command.map(|c| c.to_string()),
    }
}

#[test]
fn quoting_wraps_and_doubles() {
    assert_eq!(quote_single("/bin/ls"), "'/bin/ls'");
    assert_eq!(quote_single(""), "''");
    assert_eq!(quote_single("don't"), "'don''t'");
    assert_eq!(quote_single("''"), "''''''");
}

#[test]
fn shell_command_quotes_each_part() {
    let r = request("/bin/ls", &["--help"], false, None);
    assert_eq!(build_pwsh_cmd(&r), "& '/bin/ls' '--help'");
}

#[test]
fn shell_command_with_remote_control_and_quote_in_path() {
    let r = request("C:\\apps\\o'brien\\app.exe", &["--model=opus"], true, None);
    assert_eq!(
        build_pwsh_cmd(&r),
        "& 'C:\\apps\\o''brien\\app.exe' 'remote-control' '--model=opus'"
    );
}

#[test]
fn multiplexer_args_end_with_separator_and_program() {
    let r = request("/bin/ls", &["--help"], false, None);
    let args = build_multiplexer_args(&r);
    assert_eq!(
        args,
        vec![
            "new-tab".to_string(),
            "--profile".to_string(),
            "Default".to_string(),
            "-d".to_string(),
            "/tmp".to_string(),
            "--".to_string(),
            "/bin/ls".to_string(),
            "--help".to_string(),
        ]
    );
    // The vector ends with the option separator, the program, its flags.
    assert_eq!(args[args.len() - 3], "--");
    assert_eq!(args[args.len() - 2], "/bin/ls");
    assert_eq!(args[args.len() - 1], "--help");
}

#[test]
fn remote_control_token_sits_between_program_and_flags() {
    let r = request("/bin/ls", &["--help", "--model=opus"], true, None);
    let args = build_multiplexer_args(&r);
    let program_at = args.iter().position(|a| a == "/bin/ls").unwrap();
    assert_eq!(args[program_at + 1], "remote-control");
    assert_eq!(args[program_at + 2], "--help");
    assert_eq!(args[program_at + 3], "--model=opus");
}

#[test]
fn pre_launch_nests_a_shell_invocation() {
    let r = request("/bin/ls", &["--help"], false, Some("echo hi"));
    let args = build_multiplexer_args(&r);
    assert_eq!(
        args,
        vec![
            "new-tab".to_string(),
            "--profile".to_string(),
            "Default".to_string(),
            "-d".to_string(),
            "/tmp".to_string(),
            "--".to_string(),
            "pwsh".to_string(),
            "-NoExit".to_string(),
            "-Command".to_string(),
            "echo hi; & '/bin/ls' '--help'".to_string(),
        ]
    );
}

#[test]
fn empty_pre_launch_counts_as_absent() {
    let r = request("/bin/ls", &[], false, Some(""));
    let args = build_multiplexer_args(&r);
    assert_eq!(args[args.len() - 1], "/bin/ls");
}

/// Reads a single-quoted token the way a quoting-aware shell reader
/// does: from just after the opening quote, a doubled quote is one
/// literal quote, a lone quote closes the token.
fn read_quoted(after_open: &str) -> String {
    let chars: Vec<char> = after_open.chars().collect();
    let mut out = String::new();
    let mut i = 0;
    while i < chars.len() {
        if chars[i] == '\'' {
            if i + 1 < chars.len() && chars[i + 1] == '\'' {
                out.push('\'');
                i += 2;
            } else {
                break;
            }
        } else {
            out.push(chars[i]);
            i += 1;
        }
    }
    out
}

#[test]
fn quoting_round_trips_through_a_shell_reader() {
    for path in ["/bin/ls", "don't", "it's a 'test'", "''", "'"] {
        let r = request(path, &["--help"], false, None);
        let cmd = build_pwsh_cmd(&r);
        // The command starts with the call operator and the quoted path.
        assert!(cmd.starts_with("& '"));
        assert_eq!(read_quoted(&cmd[3..]), path);
    }
}

#[test]
fn join_with_separators() {
    let parts: Vec<String> = vec!["a".to_string(), "b".to_string(), "c".to_string()];
    assert_eq!(join_with(&parts, " "), "a b c");
    assert_eq!(join_with(&parts, "\n"), "a\nb\nc");
    let empty: Vec<String> = vec![];
    assert_eq!(join_with(&empty, " "), "");
    let one: Vec<String> = vec!["only".to_string()];
    assert_eq!(join_with(&one, " "), "only");
}
