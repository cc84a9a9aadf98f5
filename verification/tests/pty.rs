use jev_terminal_doctor::pty::interceptor::{
    default_shell, window_text, Analyzer, AnalyzerAction, COOLDOWN_MS, REPEAT_MS, WINDOW_BYTES,
};
use jev_terminal_doctor::pty::RawOutput;

#[test]
fn analyzer_reports_then_deduplicates() {
    let mut a = Analyzer::new();
    let err = "npm ERR! code 1\n";
    // Inside the cooldown nothing is reported and the window is kept.
    match a.on_output(err, COOLDOWN_MS - 1) {
        AnalyzerAction::Wait => {}
        AnalyzerAction::Report(_) => panic!("reported inside cooldown"),
    }
    assert_eq!(a.buffer, err);
    // After the cooldown the finding is reported and the window cleared.
    let first = match a.on_output("", REPEAT_MS) {
        AnalyzerAction::Report(f) => f,
        AnalyzerAction::Wait => panic!("expected a report"),
    };
    assert_eq!(first.raw_snippet, err);
    assert_eq!(a.buffer, "");
    assert_eq!(a.last_snippet, err);
    // The same snippet again within four cooldowns is dropped.
    match a.on_output(err, COOLDOWN_MS + 1) {
        AnalyzerAction::Wait => {}
        AnalyzerAction::Report(_) => panic!("repeat reported"),
    }
    assert_eq!(a.buffer, "");
    // A different error after the cooldown is reported.
    match a.on_output("--- FAIL: TestX\n", COOLDOWN_MS) {
        AnalyzerAction::Report(f) => assert_eq!(f.raw_snippet, "--- FAIL: TestX\n"),
        AnalyzerAction::Wait => panic!("expected a report"),
    }
}

#[test]
fn analyzer_keeps_plain_output() {
    let mut a = Analyzer::new();
    match a.on_output("Compiling foo\n", 100_000) {
        AnalyzerAction::Wait => {}
        AnalyzerAction::Report(_) => panic!("no error in plain output"),
    }
    assert_eq!(a.buffer, "Compiling foo\n");
}

#[test]
fn window_keeps_last_bytes_on_char_boundary() {
    let s = "a".repeat(WINDOW_BYTES);
    assert_eq!(window_text(&s).len(), WINDOW_BYTES);
    let mut t = "é".to_string();
    t.push_str(&"b".repeat(WINDOW_BYTES - 1));
    // 2 + 32767 bytes: one byte over, so the two-byte character goes.
    assert_eq!(window_text(&t), "b".repeat(WINDOW_BYTES - 1));
    let mut u = "xy".to_string();
    u.push_str(&"c".repeat(WINDOW_BYTES));
    assert_eq!(window_text(&u), "c".repeat(WINDOW_BYTES));
}

#[test]
fn shell_choice() {
    assert_eq!(default_shell(Some("/bin/zsh"), false, false, None), ("/bin/zsh".to_string(), vec![]));
    assert_eq!(default_shell(Some("  "), false, false, None), ("/bin/bash".to_string(), vec![]));
    assert_eq!(default_shell(None, true, true, None), ("powershell.exe".to_string(), vec!["-NoLogo".to_string()]));
    assert_eq!(default_shell(None, true, false, Some("C:\\cmd.exe")), ("C:\\cmd.exe".to_string(), vec![]));
    assert_eq!(default_shell(None, true, false, None), ("cmd.exe".to_string(), vec![]));
}

#[test]
fn raw_output_holds_fields() {
    let r = RawOutput { stdout: "o".into(), stderr: "e".into(), exit_code: Some(1), command: "c".into() };
    assert_eq!(r.clone().exit_code, Some(1));
}
