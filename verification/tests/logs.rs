use tab_launcher::logging::{default_log_path, format_log_line, log_line_now, LogLevel};
use tab_launcher::logview::{is_path_within, read_log_text, render_log_tail, split_lines};
use tab_launcher::AppDataDir;

#[test]
fn log_line_format() {
    let line = format_log_line("2024-01-01 00:00:00.000", LogLevel::Info, "Launcher started");
    assert_eq!(line, "[2024-01-01 00:00:00.000] [INFO] Launcher started\n");
    let line = format_log_line("t", LogLevel::Warn, "w");
    assert_eq!(line, "[t] [WARN] w\n");
    let line = format_log_line("t", LogLevel::Error, "e");
    assert_eq!(line, "[t] [ERROR] e\n");
}

#[test]
fn stamped_line_carries_level_and_message() {
    let line = log_line_now(LogLevel::Error, "boom");
    assert!(line.starts_with('['));
    assert!(line.ends_with("] [ERROR] boom\n"));
    // The timestamp renders at millisecond precision: at least
    // `YYYY-MM-DD HH:MM:SS.mmm`, 23 characters between the brackets.
    let close = line.find(']').unwrap();
    assert!(close - 1 >= 23);
}

#[test]
fn missing_log_yields_sentinel() {
    assert_eq!(read_log_text(&None, &None), "No log entries yet.");
    assert_eq!(read_log_text(&None, &Some(5)), "No log entries yet.");
}

#[test]
fn tail_returns_last_lines_in_order() {
    let content = "one\ntwo\nthree\n";
    assert_eq!(render_log_tail(content, 2), "two\nthree");
    assert_eq!(render_log_tail(content, 3), "one\ntwo\nthree");
    assert_eq!(render_log_tail(content, 100), "one\ntwo\nthree");
    assert_eq!(render_log_tail(content, 1), "three");
    assert_eq!(render_log_tail(content, 0), "");
    assert_eq!(render_log_tail("", 10), "");
}

#[test]
fn read_log_defaults_to_one_hundred_lines() {
    let mut content = String::new();
    for i in 0..150 {
        content.push_str(&format!("line {}\n", i));
    }
    let text = read_log_text(&Some(content), &None);
    let lines: Vec<&str> = text.lines().collect();
    assert_eq!(lines.len(), 100);
    assert_eq!(lines[0], "line 50");
    assert_eq!(lines[99], "line 149");
}

#[test]
fn splitting_handles_carriage_returns_and_final_newline() {
    assert_eq!(split_lines("a\r\nb"), vec!["a".to_string(), "b".to_string()]);
    assert_eq!(split_lines("a\nb\n"), vec!["a".to_string(), "b".to_string()]);
    assert_eq!(split_lines("a\n\nb"), vec!["a".to_string(), "".to_string(), "b".to_string()]);
    assert_eq!(split_lines(""), Vec::<String>::new());
    assert_eq!(split_lines("solo"), vec!["solo".to_string()]);
    // A carriage return is part of the line unless a newline follows it.
    assert_eq!(split_lines("a\r"), vec!["a\r".to_string()]);
}

#[test]
fn confinement_is_component_wise() {
    assert!(is_path_within("/data/app/logs/launcher.log", "/data/app"));
    assert!(is_path_within("/data/app", "/data/app"));
    assert!(!is_path_within("/data/other/logs", "/data/app"));
    // A shared string prefix is not enough: components must match.
    assert!(!is_path_within("/data/application/logs", "/data/app"));
    assert!(is_path_within(
        "C:\\Users\\me\\AppData\\logs\\launcher.log",
        "C:\\Users\\me\\AppData"
    ));
    // Either slash direction and trailing separators are tolerated.
    assert!(is_path_within("C:\\Users\\me/AppData\\logs", "C:\\Users\\me\\AppData\\"));
    assert!(!is_path_within("/data", "/data/app"));
}

#[test]
fn default_log_location() {
    let app_data = AppDataDir { path: "/home/me/.tab-launcher".to_string() };
    let log = default_log_path(&app_data, "/");
    assert_eq!(log.text(), "/home/me/.tab-launcher/logs/launcher.log");
    let app_data = AppDataDir { path: "C:\\Users\\me\\AppData".to_string() };
    let log = default_log_path(&app_data, "\\");
    assert_eq!(log.text(), "C:\\Users\\me\\AppData\\logs\\launcher.log");
}
