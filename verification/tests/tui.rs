use jev_terminal_doctor::ai::PatchSuggestion;
use jev_terminal_doctor::tui::actions::{
    apply_outcome, hunk_ranges_ok, parse_outcome, backup_path_for, check_patch, map_key, patch_store_path, patched_content, resolve_target,
    KeyCode, KeyPress, PatchErrorKind, UserAction, CONTROL,
};
use jev_terminal_doctor::tui::app::{App, AppState};
use jev_terminal_doctor::tui::diff_view::{line_style, overlay_title, styled_lines, LineStyle};

fn suggestion(file: &str, diff: &str) -> PatchSuggestion {
    PatchSuggestion {
        file_path: file.to_string(),
        unified_diff: diff.to_string(),
        explanation: "test".to_string(),
    }
}

#[test]
fn applies_hunk_and_keeps_rest_of_file() {
    let target_rel = "src/main.rs";
    let original = "fn main() {\n    let x: i32 = \"oops\";\n}\n";
    let diff = "--- a/src/main.rs\n+++ b/src/main.rs\n@@ -1,3 +1,3 @@\n fn main() {\n-    let x: i32 = \"oops\";\n+    let x: i32 = 42;\n }\n";
    let target = check_patch("/repo", &suggestion(target_rel, diff)).unwrap();
    assert_eq!(target, "/repo/src/main.rs");
    let patched = patched_content(original, diff).unwrap();
    assert!(patched.contains("let x: i32 = 42;"));
    assert!(patched.contains("fn main()"));
    assert_eq!(backup_path_for(&target), "/repo/src/main.rs.jev-bak");
}

#[test]
fn rejects_invalid_diff_without_touching_file() {
    let p = suggestion("a.txt", "not a diff");
    check_patch("/repo", &p).unwrap();
    let err = patched_content("hello\n", &p.unified_diff).unwrap_err();
    assert!(err.message().contains("unified diff"));
}

#[test]
fn rejects_path_traversal() {
    let err = check_patch("/repo", &suggestion("../evil.rs", "x")).unwrap_err();
    assert!(err.message().contains(".."));
    assert_eq!(err.kind, PatchErrorKind::ParentDirInPath);
}

#[test]
fn rejects_absolute_and_blank() {
    let err = resolve_target("/repo", "/etc/passwd").unwrap_err();
    assert_eq!(err.kind, PatchErrorKind::AbsolutePath);
    assert_eq!(err.message(), "Patch path must be relative, not absolute: /etc/passwd");
    let err = check_patch("/repo", &suggestion("a.rs", "  \n ")).unwrap_err();
    assert_eq!(err.kind, PatchErrorKind::EmptyPatch);
    assert_eq!(err.message(), "Patch is empty — nothing to apply");
    let err = resolve_target("/repo", "a/../../b").unwrap_err();
    assert_eq!(err.kind, PatchErrorKind::ParentDirInPath);
    assert_eq!(resolve_target("/repo", "./a/b.rs").unwrap(), "/repo/./a/b.rs");
}

#[test]
fn rejects_mismatched_hunk() {
    let diff = "--- a/x\n+++ b/x\n@@ -1,1 +1,1 @@\n-nope\n+yes\n";
    let err = patched_content("something else\n", diff).unwrap_err();
    assert_eq!(err.kind, PatchErrorKind::ApplyFailed);
    assert!(err.message().starts_with("Failed to apply patch to target file (incompatible context/hunk): "));
}

#[test]
fn backup_and_store_paths() {
    assert_eq!(backup_path_for("src/main.rs"), "src/main.rs.jev-bak");
    assert_eq!(patch_store_path("/repo"), "/repo/.jev/last-patch.json");
}

#[test]
fn key_bindings() {
    let key = |code, modifiers| KeyPress { code, modifiers };
    assert_eq!(map_key(key(KeyCode::Char('f'), CONTROL)), Some(UserAction::Apply));
    assert_eq!(map_key(key(KeyCode::Char('e'), CONTROL)), Some(UserAction::Edit));
    assert_eq!(map_key(key(KeyCode::Esc, 0)), Some(UserAction::Dismiss));
    assert_eq!(map_key(key(KeyCode::Esc, 1)), Some(UserAction::Dismiss));
    assert_eq!(map_key(key(KeyCode::Char('f'), 0)), None);
    assert_eq!(map_key(key(KeyCode::Char('f'), CONTROL | 1)), None);
    assert_eq!(map_key(key(KeyCode::Other, CONTROL)), None);
}

#[test]
fn app_moves_to_review() {
    let mut app = App::new();
    assert!(matches!(app.state, AppState::Idle));
    app.show_patch(suggestion("a", "b"));
    match &app.state {
        AppState::ReviewingPatch(p) => assert_eq!(p.file_path, "a"),
        _ => panic!("not reviewing"),
    }
    assert!(matches!(App::default().state, AppState::Idle));
}

#[test]
fn diff_lines_are_coloured() {
    assert_eq!(line_style("+x"), LineStyle::Added);
    assert_eq!(line_style("-x"), LineStyle::Removed);
    assert_eq!(line_style(" x"), LineStyle::Plain);
    let p = suggestion("f.rs", "--- a\n+b\n c\n");
    let lines = styled_lines(&p);
    assert_eq!(
        lines,
        vec![
            ("--- a".to_string(), LineStyle::Removed),
            ("+b".to_string(), LineStyle::Added),
            (" c".to_string(), LineStyle::Plain),
        ]
    );
    assert_eq!(overlay_title(&p), " Suggested patch for f.rs — test ");
}

#[test]
fn parse_and_apply_outcomes() {
    assert!(parse_outcome(Ok(2)).is_ok());
    let e = parse_outcome(Ok(0)).unwrap_err();
    assert_eq!(e.kind, PatchErrorKind::NoHunks);
    assert_eq!(e.message(), "Patch is not a valid unified diff (no hunks found)");
    let e = parse_outcome(Err("error parsing patch: bad".to_string())).unwrap_err();
    assert_eq!(e.message(), "Patch is not a valid unified diff: error parsing patch: bad");
    assert_eq!(apply_outcome(Ok("new".to_string())).unwrap(), "new");
    let e = apply_outcome(Err("error applying hunk #1".to_string())).unwrap_err();
    assert_eq!(e.kind, PatchErrorKind::ApplyFailed);
}

#[test]
fn rejects_hunk_ranges_that_overflow() {
    let diff = "@@ -18446744073709551615,1 +1,1 @@\n a\n@@ -1,1 +1,1 @@\n b\n";
    assert!(!hunk_ranges_ok(diff));
    let err = patched_content("a\nb\n", diff).unwrap_err();
    assert_eq!(err.kind, PatchErrorKind::InvalidDiff);
    assert_eq!(err.message(), "Patch is not a valid unified diff: hunk range too large");
    // A new range that overflows on a hunk that is not the last one.
    assert!(!hunk_ranges_ok("@@ -1,1 +18446744073709551615 @@\n a\n@@ -2,1 +2,1 @@\n b\n"));
    assert!(hunk_ranges_ok("--- a\n+++ b\n@@ -1,3 +1,3 @@ fn f()\n x\n"));
}

#[test]
fn large_numbers_outside_ranges_are_accepted() {
    // Numbers in the text after the closing `@@` are not ranges.
    let diff = "@@ -1 +1 @@ 99999999999999999999\n-a\n+b\n";
    assert!(hunk_ranges_ok(diff));
    assert_eq!(patched_content("a\n", diff).unwrap(), "b\n");
    // The last hunk's range is never summed, so a huge start there is parsed.
    assert!(hunk_ranges_ok("@@ -18446744073709551615,1 +1,1 @@\n-a\n+b\n"));
    assert!(hunk_ranges_ok("+99999999999999999999999999\n"));
}
