use jev_terminal_doctor::hook::{
    append_capped, bash_snippet, combine_output, exit_code_from, found_report,
    hook_already_installed, hook_instructions, hook_profile_addition, int_text,
    no_finding_report, powershell_snippet, profile_path, snippet_for, tail_chars, zsh_snippet,
    HOOK_MARKER, STREAM_BUFFER_CAP,
};
use jev_terminal_doctor::errors::{ErrorFinding, Toolchain};

#[test]
fn powershell_snippet_calls_check() {
    let s = powershell_snippet();
    assert!(s.contains("function jev-run"));
    assert!(s.contains("jev check"));
    assert!(s.contains(HOOK_MARKER));
}

#[test]
fn bash_snippet_preserves_exit_code() {
    let s = bash_snippet();
    assert!(s.contains("PIPESTATUS"));
    assert!(s.contains("jev check"));
}

#[test]
fn zsh_snippet_uses_pipestatus() {
    let s = zsh_snippet();
    assert!(s.contains("pipestatus"));
    assert!(s.contains("jev check"));
}

#[test]
fn snippet_for_unknown_shell_is_none() {
    assert!(snippet_for("fish").is_none());
    assert!(snippet_for("powershell").is_some());
}

#[test]
fn snippet_for_picks_by_shell_name() {
    assert_eq!(snippet_for("/usr/bin/ZSH").unwrap(), zsh_snippet());
    assert_eq!(snippet_for("/bin/bash").unwrap(), bash_snippet());
    assert_eq!(snippet_for("sh").unwrap(), bash_snippet());
    assert_eq!(snippet_for("pwsh.exe").unwrap(), powershell_snippet());
    assert!(snippet_for("/bin/sh").is_none());
}

#[test]
fn every_snippet_starts_with_the_marker() {
    for s in [powershell_snippet(), bash_snippet(), zsh_snippet()] {
        assert!(s.starts_with(HOOK_MARKER));
    }
}

#[test]
fn installing_twice_is_detected() {
    let existing = "alias ll='ls -l'\n";
    assert!(!hook_already_installed(existing));
    let mut profile = existing.to_string();
    profile.push_str(&hook_profile_addition(&bash_snippet()));
    assert!(hook_already_installed(&profile));
    assert_eq!(hook_profile_addition("X"), "\nX\n");
}

#[test]
fn hook_instructions_follow_the_snippet() {
    assert_eq!(
        hook_instructions("S"),
        "S\n# Reload your shell config afterwards (e.g. `. ~/.bashrc`)."
    );
}

#[test]
fn profile_paths_per_shell() {
    assert_eq!(profile_path("zsh", false, false), vec![".zshrc".to_string()]);
    assert_eq!(profile_path("bash", false, false), vec![".bashrc".to_string()]);
    assert_eq!(profile_path("fish", false, false), vec![".bashrc".to_string()]);
    assert_eq!(
        profile_path("PowerShell", false, false),
        vec![".config/powershell/Microsoft.PowerShell_profile.ps1".to_string()]
    );
    assert_eq!(
        profile_path("powershell", true, true),
        vec!["Documents", "PowerShell", "Microsoft.PowerShell_profile.ps1"]
    );
    assert_eq!(
        profile_path("pwsh", true, false),
        vec!["Documents", "WindowsPowerShell", "Microsoft.PowerShell_profile.ps1"]
    );
}

#[test]
fn tail_chars_keeps_the_end() {
    assert_eq!(tail_chars("abcdef", 2), "ef");
    assert_eq!(tail_chars("abc", 5), "abc");
    assert_eq!(tail_chars("日本語", 1), "語");
}

#[test]
fn reports_when_nothing_matched() {
    assert_eq!(
        no_finding_report(Some(2)),
        "[jev] command failed (exit 2) but no known error pattern matched — nothing saved."
    );
    assert_eq!(
        no_finding_report(Some(-130)),
        "[jev] command failed (exit -130) but no known error pattern matched — nothing saved."
    );
    assert_eq!(no_finding_report(Some(0)), "[jev] no errors detected.");
    assert_eq!(no_finding_report(None), "[jev] no errors detected.");
}

#[test]
fn int_text_formats_like_display() {
    for n in [0, 7, 10, 123, -1, -45, i32::MAX, i32::MIN] {
        assert_eq!(int_text(n), n.to_string());
    }
}

#[test]
fn reports_a_found_error() {
    let f = ErrorFinding {
        toolchain: Toolchain::Go,
        raw_snippet: "x".to_string(),
        file_hint: None,
        line_hint: None,
    };
    assert_eq!(
        found_report(&f, "anthropic", "fix it"),
        "[jev] [Go] error in unknown location — patch ready (anthropic)\n  fix it\n  Next: `jev show` to view, `jev apply` to apply, `jev undo` to revert"
    );
}

#[test]
fn exit_code_falls_back_on_success() {
    assert_eq!(exit_code_from(Some(3), false), 3);
    assert_eq!(exit_code_from(None, true), 0);
    assert_eq!(exit_code_from(None, false), 1);
}

#[test]
fn combined_output_puts_stderr_after_stdout() {
    assert_eq!(combine_output("out", "err"), "out\nerr");
}

#[test]
fn stream_buffer_drops_oldest_half_when_over_cap() {
    let mut buf = vec![1u8; 10];
    append_capped(&mut buf, &[2, 3]);
    assert_eq!(buf.len(), 12);
    assert_eq!(&buf[10..], &[2, 3]);

    let mut big: Vec<u8> = (0..STREAM_BUFFER_CAP + 2).map(|i| (i % 251) as u8).collect();
    let expected_first = big[(STREAM_BUFFER_CAP + 2) / 2];
    append_capped(&mut big, &[9]);
    assert_eq!(big.len(), (STREAM_BUFFER_CAP + 2) - (STREAM_BUFFER_CAP + 2) / 2 + 1);
    assert_eq!(big[0], expected_first);
    assert_eq!(*big.last().unwrap(), 9);
}
