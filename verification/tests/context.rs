use jev_terminal_doctor::context::collector::{collect, render_untracked, slice_around, truncate_chars};
use jev_terminal_doctor::context::project::detect_project_kind;
use jev_terminal_doctor::context::ProjectContext;
use jev_terminal_doctor::errors::{ErrorFinding, Toolchain};

#[test]
fn detects_cargo_project() {
    let present = vec!["Cargo.toml".to_string()];
    assert_eq!(detect_project_kind(&present), Some("cargo"));
}

#[test]
fn returns_none_for_unknown() {
    let present: Vec<String> = Vec::new();
    assert_eq!(detect_project_kind(&present), None);
}

#[test]
fn marker_priority_decides_the_kind() {
    let present = vec!["go.mod".to_string(), "package.json".to_string(), "README.md".to_string()];
    assert_eq!(detect_project_kind(&present), Some("npm"));
    let present = vec!["build.gradle".to_string(), "pom.xml".to_string()];
    assert_eq!(detect_project_kind(&present), Some("maven"));
}

#[test]
fn truncate_chars_counts_characters() {
    assert_eq!(truncate_chars("héllo", 2), "hé");
    assert_eq!(truncate_chars("ab", 5), "ab");
}

#[test]
fn slice_around_keeps_context_lines() {
    let content = "l1\nl2\nl3\nl4\nl5\nl6\n";
    assert_eq!(slice_around(content, 3, 1, 100), "l2\nl3\nl4");
    assert_eq!(slice_around(content, 1, 1, 100), "l1\nl2");
    assert_eq!(slice_around(content, 99, 1, 100), "l5\nl6");
    assert_eq!(slice_around(content, 0, 0, 100), "l1");
    assert_eq!(slice_around(content, 3, 1, 4), "l2\nl");
    assert_eq!(slice_around("", 3, 1, 100), "");
    assert_eq!(slice_around("a\r\nb\r\n", 1, 5, 100), "a\nb");
}

fn finding(file: Option<&str>, line: Option<u32>) -> ErrorFinding {
    ErrorFinding {
        toolchain: Toolchain::Rust,
        raw_snippet: "boom".to_string(),
        file_hint: file.map(|s| s.to_string()),
        line_hint: line,
    }
}

#[test]
fn collect_keeps_non_blank_diff_and_file_slice() {
    let f = finding(Some("src/main.rs"), Some(2));
    let ctx = collect(Some("cargo"), Some("diff --git a b\n"), &f, Some("a\nb\nc\n"));
    assert_eq!(ctx.project_kind.as_deref(), Some("cargo"));
    assert_eq!(ctx.relevant_diff.as_deref(), Some("diff --git a b\n"));
    assert_eq!(
        ctx.relevant_file_snippets,
        vec![("src/main.rs".to_string(), "a\nb\nc".to_string())]
    );

    let blank = collect(None, Some("  \n\t"), &f, None);
    assert_eq!(blank.relevant_diff, None);
    assert!(blank.relevant_file_snippets.is_empty());

    let no_line = collect(None, None, &finding(Some("x.py"), None), Some("print(1)\n"));
    assert_eq!(no_line.relevant_file_snippets[0].1, "print(1)\n");

    let long = "d".repeat(9000);
    let cut = collect(None, Some(&long), &f, None);
    assert_eq!(cut.relevant_diff.unwrap().len(), 8000);
}

#[test]
fn file_slice_around_a_line_stays_within_sixty_lines() {
    let content: String = (1..=200).map(|i| format!("line {}\n", i)).collect();
    let f = finding(Some("src/lib.rs"), Some(100));
    let ctx = collect(None, None, &f, Some(&content));
    let slice = &ctx.relevant_file_snippets[0].1;
    assert!(slice.lines().count() <= 60);
    let expected: Vec<String> = (71..=129).map(|i| format!("line {}", i)).collect();
    assert_eq!(slice, &expected.join("\n"));

    let near_start = collect(None, None, &finding(Some("src/lib.rs"), Some(1)), Some(&content));
    let expected: Vec<String> = (1..=30).map(|i| format!("line {}", i)).collect();
    assert_eq!(near_start.relevant_file_snippets[0].1, expected.join("\n"));
}

#[test]
fn default_context_is_empty() {
    let ctx = ProjectContext::default();
    assert!(ctx.project_kind.is_none());
    assert!(ctx.relevant_diff.is_none());
    assert!(ctx.relevant_file_snippets.is_empty());
}

#[test]
fn untracked_files_are_capped() {
    let mut entries: Vec<(String, Option<String>)> = Vec::new();
    entries.push(("bin.dat".to_string(), None));
    for i in 0..7 {
        entries.push((format!("f{}.rs", i), Some(format!("content {}", i))));
    }
    let text = render_untracked(&entries);
    assert!(!text.contains("bin.dat"));
    for i in 0..5 {
        assert!(text.contains(&format!("\n--- new file: f{}.rs\ncontent {}\n", i, i)));
    }
    assert!(!text.contains("f5.rs"));
    assert!(text.ends_with("... (more untracked files omitted)\n"));

    let few = vec![("a.txt".to_string(), Some("x".repeat(2500)))];
    let text = render_untracked(&few);
    assert_eq!(text, format!("\n--- new file: a.txt\n{}\n", "x".repeat(2000)));
}
