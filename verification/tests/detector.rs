use jev_terminal_doctor::errors::detector::{parse_u32, scan, strip_ansi, tail_snippet};
use jev_terminal_doctor::errors::Toolchain;

#[test]
fn detects_rustc_error() {
    let sample = "error[E0308]: mismatched types\n  --> src/main.rs:10:5\n";
    let finding = scan(sample).expect("should be detected");
    assert_eq!(finding.toolchain, Toolchain::Rust);
    assert_eq!(finding.file_hint.as_deref(), Some("src/main.rs"));
    assert_eq!(finding.line_hint, Some(10));
}

#[test]
fn detects_rust_panic_with_location() {
    let sample = "thread 'main' panicked at src/main.rs:42:9:\nindex out of bounds";
    let finding = scan(sample).expect("should be detected");
    assert_eq!(finding.toolchain, Toolchain::Rust);
    assert_eq!(finding.file_hint.as_deref(), Some("src/main.rs"));
    assert_eq!(finding.line_hint, Some(42));
}

#[test]
fn detects_tsc_errors() {
    let classic = "src/index.ts:10:5 - error TS2322: Type 'string' is not assignable.\n";
    let finding = scan(classic).expect("classic tsc should be detected");
    assert_eq!(finding.toolchain, Toolchain::Node);
    assert_eq!(finding.file_hint.as_deref(), Some("src/index.ts"));
    assert_eq!(finding.line_hint, Some(10));

    let pretty = "src/app.tsx(7,3): error TS2304: Cannot find name 'x'.\n";
    let finding = scan(pretty).expect("pretty tsc should be detected");
    assert_eq!(finding.file_hint.as_deref(), Some("src/app.tsx"));
    assert_eq!(finding.line_hint, Some(7));
}

#[test]
fn detects_npm_and_missing_module() {
    assert!(scan("npm ERR! code ELIFECYCLE\nnpm ERR! errno 1\n").is_some());
    assert!(scan("Error: Cannot find module 'express'\nRequire stack:\n").is_some());
}

#[test]
fn detects_pytest_failures() {
    let sample = "FAILED tests/test_api.py::test_create - assert 200 == 500\n";
    let finding = scan(sample).expect("pytest FAILED should be detected");
    assert_eq!(finding.toolchain, Toolchain::Python);
    assert_eq!(finding.file_hint.as_deref(), Some("tests/test_api.py"));

    assert!(scan("E   AssertionError: expected 1, got 2\n").is_some());
}

#[test]
fn detects_go_build_and_test_fail() {
    let sample = "main.go:12:5: undefined: Foo\n";
    let finding = scan(sample).expect("go build error should be detected");
    assert_eq!(finding.toolchain, Toolchain::Go);
    assert_eq!(finding.line_hint, Some(12));

    assert!(scan("--- FAIL: TestHandler (0.01s)\n").is_some());
    // Plain log lines mentioning .go must not trigger.
    assert!(scan("INFO server.go:10:3: listening on :8080\n").is_none());
}

#[test]
fn detects_maven_and_javac_errors() {
    let maven = "[ERROR] src/main/java/App.java:[10,5] ';' expected\n";
    let finding = scan(maven).expect("maven error should be detected");
    assert_eq!(finding.toolchain, Toolchain::Java);
    assert_eq!(finding.line_hint, Some(10));

    let javac = "src/main/java/App.java:20: error: cannot find symbol\n";
    assert!(scan(javac).is_some());
}

#[test]
fn ignores_normal_output() {
    let sample = "Compiling jev-terminal-doctor v0.1.0\nFinished dev profile\n";
    assert!(scan(sample).is_none());
}

#[test]
fn strips_ansi_colours_before_matching() {
    let sample = "\x1b[31merror[E0425]\x1b[0m: cannot find value `y`\n  \x1b[34m-->\x1b[0m src/lib.rs:7:13\n";
    let finding = scan(sample).expect("coloured rustc error should be detected");
    assert_eq!(finding.toolchain, Toolchain::Rust);
    assert_eq!(finding.file_hint.as_deref(), Some("src/lib.rs"));
    assert_eq!(finding.line_hint, Some(7));
    assert!(!finding.raw_snippet.contains('\x1b'));
}

#[test]
fn earlier_rule_wins_over_later_rule() {
    // Both a rustc error and an npm error: the rustc rule comes first.
    let sample = "npm ERR! code 1\nerror: oops\n --> build.rs:3:1\n";
    let finding = scan(sample).unwrap();
    assert_eq!(finding.toolchain, Toolchain::Rust);
    assert_eq!(finding.file_hint.as_deref(), Some("build.rs"));
}

#[test]
fn pytest_failure_has_no_line() {
    let finding = scan("FAILED tests/test_x.py - boom\n").unwrap();
    assert_eq!(finding.line_hint, None);
}

#[test]
fn python_traceback_is_detected() {
    let sample = "Traceback (most recent call last):\n  File \"app.py\", line 5, in <module>\n    x = 1 / 0\nZeroDivisionError: division by zero\n";
    let finding = scan(sample).unwrap();
    assert_eq!(finding.toolchain, Toolchain::Python);
    assert_eq!(finding.file_hint.as_deref(), Some("app.py"));
    assert_eq!(finding.line_hint, Some(5));
}

#[test]
fn cargo_test_failure_is_detected_without_location() {
    let finding = scan("test tests::it_works ... FAILED\n").unwrap();
    assert_eq!(finding.toolchain, Toolchain::Rust);
    assert_eq!(finding.file_hint, None);
    assert_eq!(finding.line_hint, None);
}

#[test]
fn snippet_keeps_only_the_tail() {
    let mut sample = "x".repeat(5000);
    sample.push_str("\nnpm ERR! code 1\n");
    let finding = scan(&sample).unwrap();
    assert_eq!(finding.raw_snippet.chars().count(), 4000);
    assert!(finding.raw_snippet.ends_with("npm ERR! code 1\n"));
}

#[test]
fn tail_snippet_counts_characters() {
    assert_eq!(tail_snippet("héllo", 3), "llo");
    assert_eq!(tail_snippet("héllo", 10), "héllo");
    assert_eq!(tail_snippet("ééé", 2), "éé");
}

#[test]
fn parses_line_numbers_like_u32_from_str() {
    assert_eq!(parse_u32("42"), Some(42));
    assert_eq!(parse_u32("+7"), Some(7));
    assert_eq!(parse_u32("007"), Some(7));
    assert_eq!(parse_u32("4294967295"), Some(u32::MAX));
    assert_eq!(parse_u32("4294967296"), None);
    assert_eq!(parse_u32(""), None);
    assert_eq!(parse_u32("+"), None);
    assert_eq!(parse_u32("-1"), None);
    assert_eq!(parse_u32("1a"), None);
    assert_eq!(parse_u32("\u{0663}"), None);
    for s in ["0", "12", "+3", "99999999999", "x"] {
        assert_eq!(parse_u32(s), s.parse::<u32>().ok());
    }
}

#[test]
fn scanning_stripped_output_gives_the_same_finding() {
    let sample = "\x1b[31merror[E0308]\x1b[0m: mismatched types\n  --> src/main.rs:10:5\n";
    let a = scan(sample).unwrap();
    let cleaned = strip_ansi(sample);
    assert_eq!(strip_ansi(&cleaned), cleaned);
    let b = scan(&cleaned).unwrap();
    assert_eq!(a.toolchain, Toolchain::Rust);
    assert_eq!(a.file_hint.as_deref(), Some("src/main.rs"));
    assert_eq!(a.line_hint, Some(10));
    assert_eq!((a.toolchain, a.raw_snippet, a.file_hint, a.line_hint), (b.toolchain, b.raw_snippet, b.file_hint, b.line_hint));
}
