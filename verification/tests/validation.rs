use tab_launcher::validate::{is_safe_flag, is_safe_path, is_safe_profile};

#[test]
fn metacharacters_reject_paths() {
    let metachars = [
        ';', '|', '&', '`', '$', '(', ')', '{', '}', '<', '>', '!', '\n', '\r',
    ];
    for c in metachars {
        let s = format!("/usr/bin/prog{}ram", c);
        assert!(!is_safe_path(&s), "path with {:?} must be rejected", c);
        let flag = format!("--model={}", c);
        assert!(!is_safe_flag(&flag), "flag value with {:?} must be rejected", c);
    }
}

#[test]
fn plain_paths_are_safe() {
    assert!(is_safe_path("/bin/ls"));
    assert!(is_safe_path("C:\\Users\\me\\AppData\\Local\\Programs\\myapp\\myapp.exe"));
    assert!(is_safe_path("relative/path with spaces"));
    assert!(is_safe_path(""));
}

#[test]
fn injection_paths_are_rejected() {
    assert!(!is_safe_path("/bin/ls; rm -rf /"));
    assert!(!is_safe_path("$(whoami)"));
    assert!(!is_safe_path("a`b"));
    assert!(!is_safe_path("a\nb"));
}

#[test]
fn profile_names() {
    assert!(is_safe_profile("Default"));
    assert!(is_safe_profile("PowerShell 7"));
    assert!(is_safe_profile("my-profile_2"));
    assert!(!is_safe_profile(""));
    assert!(!is_safe_profile("bad;profile"));
    assert!(!is_safe_profile("quo'te"));
}

#[test]
fn well_formed_flags_are_accepted() {
    assert!(is_safe_flag("--help"));
    assert!(is_safe_flag("--a"));
    assert!(is_safe_flag("--model=opus"));
    assert!(is_safe_flag("--log-level=debug"));
    assert!(is_safe_flag("--x2-y"));
    // A value may itself contain '=' and may be empty.
    assert!(is_safe_flag("--env=A=B"));
    assert!(is_safe_flag("--flag="));
}

#[test]
fn malformed_flags_are_rejected() {
    assert!(!is_safe_flag(""));
    assert!(!is_safe_flag("-h"));
    assert!(!is_safe_flag("--"));
    assert!(!is_safe_flag("--=value"));
    assert!(!is_safe_flag("--1abc"));
    assert!(!is_safe_flag("--a_b"));
    assert!(!is_safe_flag("--a b"));
    assert!(!is_safe_flag("help"));
}

#[test]
fn flag_values_with_metacharacters_are_rejected() {
    assert!(!is_safe_flag("--model=$(whoami)"));
    assert!(!is_safe_flag("--out=a|b"));
    assert!(!is_safe_flag("--cmd=x;y"));
    assert!(!is_safe_flag("--v=a\r\nb"));
}
