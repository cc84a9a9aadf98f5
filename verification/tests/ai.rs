use jev_terminal_doctor::ai::client::{
    build_prompt, clean_response_text, first_text_block, provider_label, uses_anthropic,
    MockProvider,
};
use jev_terminal_doctor::context::collector::collect;
use jev_terminal_doctor::context::ProjectContext;
use jev_terminal_doctor::errors::{ErrorFinding, Toolchain};
use jev_terminal_doctor::pipeline::provider_name;
use jev_terminal_doctor::tui::actions::patched_content;

fn finding(file: Option<&str>) -> ErrorFinding {
    ErrorFinding {
        toolchain: Toolchain::Rust,
        raw_snippet: "error[E0308]: mismatched types\n  --> src/main.rs:2:5".to_string(),
        file_hint: file.map(|s| s.to_string()),
        line_hint: Some(2),
    }
}

#[test]
fn mock_without_file_content_creates_new_file_diff() {
    let ctx = ProjectContext::default();
    let p = MockProvider.suggest_patch(&finding(None), &ctx);
    assert_eq!(p.file_path, "TODO.jev.md");
    assert!(p.explanation.starts_with("[mock] "));
    assert!(p.explanation.contains("Rust"));
    let expected = format!(
        "--- /dev/null\n+++ b/TODO.jev.md\n@@ -0,0 +1,2 @@\n+<!-- jev mock patch: {} -->\n+error[E0308]: mismatched types\n",
        p.explanation
    );
    assert_eq!(p.unified_diff, expected);
    // The new-file diff applies to an empty file.
    let applied = patched_content("", &p.unified_diff).unwrap();
    assert!(applied.contains("jev mock patch"));
}

#[test]
fn mock_uses_first_snippet_when_finding_has_no_file() {
    let mut ctx = ProjectContext::default();
    ctx.relevant_file_snippets.push(("lib.rs".to_string(), String::new()));
    let p = MockProvider.suggest_patch(&finding(None), &ctx);
    assert_eq!(p.file_path, "lib.rs");
}

#[test]
fn mock_with_file_content_produces_applicable_diff() {
    let mut ctx = ProjectContext::default();
    let original = "fn main() {\r\n    let x = 1;\r\n}\r\n";
    ctx.relevant_file_snippets.push(("src/main.rs".to_string(), original.to_string()));
    let p = MockProvider.suggest_patch(&finding(Some("src/main.rs")), &ctx);
    assert_eq!(p.file_path, "src/main.rs");
    let applied = patched_content(original, &p.unified_diff).unwrap();
    assert_eq!(applied, format!("<!-- jev mock patch: {} -->\n{}", p.explanation, original));
}

#[test]
fn mock_diff_for_a_collected_slice_applies() {
    let file = "use std::io;\n\nfn main() {\n    let x: i32 = \"oops\";\n}\n";
    let f = finding(Some("src/main.rs"));
    let ctx = collect(Some("cargo"), None, &f, Some(file));
    let slice = ctx.relevant_file_snippets[0].1.clone();
    assert_eq!(slice, "use std::io;\n\nfn main() {\n    let x: i32 = \"oops\";\n}");
    let p = MockProvider.suggest_patch(&f, &ctx);
    // The slice has no trailing newline, and the diff still has a hunk.
    let applied = patched_content(&slice, &p.unified_diff).unwrap();
    assert_eq!(applied, format!("<!-- jev mock patch: {} -->\n{}", p.explanation, slice));
    // Its context lines are whole lines of the file, so it applies there too.
    let whole = patched_content(file, &p.unified_diff).unwrap();
    assert_eq!(whole, format!("<!-- jev mock patch: {} -->\n{}", p.explanation, file));
}

#[test]
fn prompt_holds_error_diff_and_files() {
    let mut ctx = ProjectContext::default();
    ctx.relevant_diff = Some("+added".to_string());
    ctx.relevant_file_snippets.push(("a.rs".to_string(), "fn a() {}".to_string()));
    let prompt = build_prompt(&finding(Some("a.rs")), &ctx);
    assert!(prompt.starts_with("The following error occurred in a Rust project:\n\nerror[E0308]"));
    assert!(prompt.contains("```diff\n+added\n```\n\n"));
    assert!(prompt.contains("Contents of file a.rs:\n```\nfn a() {}\n```\n\n"));
    assert!(prompt.ends_with("\"file_path\": \"...\"}"));
}

#[test]
fn reply_fences_are_removed() {
    assert_eq!(clean_response_text("  ```json\n{\"a\": 1}\n```  "), "{\"a\": 1}");
    assert_eq!(clean_response_text("```\n{}\n``````"), "{}");
    assert_eq!(clean_response_text("{}"), "{}");
}

#[test]
fn first_text_block_is_picked() {
    let blocks = vec![
        ("tool_use".to_string(), Some("no".to_string())),
        ("text".to_string(), Some("yes".to_string())),
        ("text".to_string(), Some("later".to_string())),
    ];
    assert_eq!(first_text_block(&blocks).as_deref(), Some("yes"));
    let blocks = vec![("text".to_string(), None), ("text".to_string(), Some("x".to_string()))];
    assert_eq!(first_text_block(&blocks), None);
    assert_eq!(first_text_block(&Vec::new()), None);
}

#[test]
fn blank_key_selects_mock() {
    assert!(!uses_anthropic(None));
    assert!(!uses_anthropic(Some("   ")));
    assert!(uses_anthropic(Some("sk-1")));
    assert_eq!(provider_name(Some(" ")), "mock (ANTHROPIC_API_KEY not set)");
    assert_eq!(provider_name(Some("k")), "anthropic");
    assert_eq!(provider_label(None), "mock (ANTHROPIC_API_KEY not set)");
    assert_eq!(provider_label(Some("k")), "anthropic");
}
