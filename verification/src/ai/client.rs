//! The offline mock provider, the prompt sent to the model, and the
//! handling of the model's reply text.
use vstd::prelude::*;

use super::PatchSuggestion;
use crate::context::{ContextView, ProjectContext};
use crate::errors::{toolchain_label, toolchain_name, ErrorFinding, FindingView, Toolchain};
use crate::text::{
    contains_text, lemma_occurs_in_concat, lemma_occurs_trans, occurs_at, lines_of, owned, push_text, split_lines, strip_prefix_all,
    strip_suffix_all, text_eq, trim_end_matches, trim_start_matches, trim_str, trimmed,
};

verus! {

/// Path used by the mock provider when no file is known.
pub const MOCK_FALLBACK_PATH: &'static str = "TODO.jev.md";

/// Label shown when the mock provider is used.
pub const MOCK_PROVIDER_LABEL: &'static str = "mock (ANTHROPIC_API_KEY not set)";

/// Label shown when the Anthropic provider is used.
pub const ANTHROPIC_PROVIDER_LABEL: &'static str = "anthropic";

/// Whether a configured API key selects the real provider: it must be set
/// and not blank.
pub open spec fn key_selects_anthropic(api_key: Option<Seq<char>>) -> bool {
    match api_key {
        Some(k) => trimmed(k).len() != 0,
        None => false,
    }
}

/// Whether the value of `ANTHROPIC_API_KEY` selects the real provider.
pub fn uses_anthropic(api_key: Option<&str>) -> (res: bool)
    ensures
        res == key_selects_anthropic(match api_key {
            Some(k) => Some(k@),
            None => None::<Seq<char>>,
        }),
{
    match api_key {
        Some(k) => !trim_str(k).is_empty(),
        None => false,
    }
}

/// The label of the provider chosen for a key value.
pub fn provider_label(api_key: Option<&str>) -> (res: &'static str)
    ensures
        res@ == if key_selects_anthropic(match api_key {
            Some(k) => Some(k@),
            None => None::<Seq<char>>,
        }) {
            ANTHROPIC_PROVIDER_LABEL@
        } else {
            MOCK_PROVIDER_LABEL@
        },
{
    if uses_anthropic(api_key) {
        ANTHROPIC_PROVIDER_LABEL
    } else {
        MOCK_PROVIDER_LABEL
    }
}

pub open spec fn prompt_intro(t: Toolchain, snippet: Seq<char>) -> Seq<char> {
    "The following error occurred in a "@ + toolchain_name(t) + " project:\n\n"@ + snippet + "\n\n"@
}

pub open spec fn prompt_diff(diff: Option<Seq<char>>) -> Seq<char> {
    match diff {
        Some(d) => "Uncommitted changes:\n```diff\n"@ + d + "\n```\n\n"@,
        None => seq![],
    }
}

pub open spec fn prompt_file(path: Seq<char>, content: Seq<char>) -> Seq<char> {
    "Contents of file "@ + path + ":\n```\n"@ + content + "\n```\n\n"@
}

pub open spec fn prompt_files(files: Seq<(Seq<char>, Seq<char>)>) -> Seq<char>
    decreases files.len(),
{
    if files.len() == 0 {
        seq![]
    } else {
        prompt_files(files.drop_last()) + prompt_file(files.last().0, files.last().1)
    }
}

pub open spec fn prompt_request() -> Seq<char> {
    "Please return only a unified diff that fixes this error, with a one-line explanation. The reply must be exactly this JSON: {\"explanation\": \"...\", \"unified_diff\": \"...\", \"file_path\": \"...\"}"@
}

/// The prompt for a finding and its context: the error, the uncommitted
/// diff (if any), each file slice, then the reply format request.
pub open spec fn prompt_text(f: FindingView, c: ContextView) -> Seq<char> {
    prompt_intro(f.0, f.1) + prompt_diff(c.1) + prompt_files(c.2) + prompt_request()
}

/// Each file slice, with its path, occurs in the files part of the prompt.
proof fn lemma_prompt_files_hold(files: Seq<(Seq<char>, Seq<char>)>, i: int)
    requires
        0 <= i < files.len(),
    ensures
        contains_text(prompt_files(files), files[i].0),
        contains_text(prompt_files(files), files[i].1),
    decreases files.len(),
{
    let init = files.drop_last();
    let (path, content) = files.last();
    let whole = prompt_file(path, content);
    if i < files.len() - 1 {
        lemma_prompt_files_hold(init, i);
        assert(init[i] == files[i]);
        let k0 = choose|k: int| occurs_at(prompt_files(init), files[i].0, k);
        let k1 = choose|k: int| occurs_at(prompt_files(init), files[i].1, k);
        lemma_occurs_in_concat(seq![], prompt_files(init), whole);
        assert(seq![] + prompt_files(init) + whole =~= prompt_files(files));
        lemma_occurs_trans(prompt_files(files), prompt_files(init), files[i].0, 0, k0);
        lemma_occurs_trans(prompt_files(files), prompt_files(init), files[i].1, 0, k1);
    } else {
        let head = "Contents of file "@;
        let mid = ":\n```\n"@;
        let tail = "\n```\n\n"@;
        lemma_occurs_in_concat(head, path, mid + content + tail);
        assert(head + path + (mid + content + tail) =~= whole);
        lemma_occurs_in_concat(head + path + mid, content, tail);
        assert(head + path + mid + content + tail =~= whole);
        lemma_occurs_in_concat(prompt_files(init), whole, seq![]);
        assert(prompt_files(init) + whole + seq![] =~= prompt_files(files));
        lemma_occurs_trans(prompt_files(files), whole, path, prompt_files(init).len() as int, head.len() as int);
        lemma_occurs_trans(
            prompt_files(files),
            whole,
            content,
            prompt_files(init).len() as int,
            (head + path + mid).len() as int,
        );
    }
}

/// The prompt opens with the sentence naming the toolchain and then holds
/// the whole error snippet followed by a blank line; it holds the
/// uncommitted diff when there is one, and the path and content of every
/// file slice; and it ends with the request for the reply format.
pub proof fn lemma_prompt_holds_error_and_context(f: FindingView, c: ContextView)
    ensures
        ({
            let p = prompt_text(f, c);
            let opening = "The following error occurred in a "@ + toolchain_name(f.0) + " project:\n\n"@;
            &&& occurs_at(p, opening, 0)
            &&& occurs_at(p, f.1 + "\n\n"@, opening.len() as int)
            &&& c.1 matches Some(d) ==> contains_text(p, d)
            &&& forall|i: int|
                0 <= i < c.2.len() ==> contains_text(p, (#[trigger] c.2[i]).0) && contains_text(p, c.2[i].1)
            &&& p.len() >= prompt_request().len()
            &&& occurs_at(p, prompt_request(), p.len() - prompt_request().len())
        }),
{
    let p = prompt_text(f, c);
    let opening = "The following error occurred in a "@ + toolchain_name(f.0) + " project:\n\n"@;
    let intro = prompt_intro(f.0, f.1);
    let rest = prompt_diff(c.1) + prompt_files(c.2) + prompt_request();
    assert(p =~= intro + rest);
    lemma_occurs_in_concat(seq![], opening, f.1 + "\n\n"@ + rest);
    assert(seq![] + opening + (f.1 + "\n\n"@ + rest) =~= p);
    lemma_occurs_in_concat(opening, f.1 + "\n\n"@, rest);
    assert(opening + (f.1 + "\n\n"@) + rest =~= p);
    lemma_occurs_in_concat(intro + prompt_diff(c.1) + prompt_files(c.2), prompt_request(), seq![]);
    assert(intro + prompt_diff(c.1) + prompt_files(c.2) + prompt_request() + seq![] =~= p);
    match c.1 {
        Some(d) => {
            let dh = "Uncommitted changes:\n```diff\n"@;
            lemma_occurs_in_concat(intro + dh, d, "\n```\n\n"@ + prompt_files(c.2) + prompt_request());
            assert(intro + dh + d + ("\n```\n\n"@ + prompt_files(c.2) + prompt_request()) =~= p);
        },
        None => {},
    }
    let before = intro + prompt_diff(c.1);
    lemma_occurs_in_concat(before, prompt_files(c.2), prompt_request());
    assert(before + prompt_files(c.2) + prompt_request() =~= p);
    assert forall|i: int| 0 <= i < c.2.len() implies contains_text(p, (#[trigger] c.2[i]).0) && contains_text(
        p,
        c.2[i].1,
    ) by {
        lemma_prompt_files_hold(c.2, i);
        let k0 = choose|k: int| occurs_at(prompt_files(c.2), c.2[i].0, k);
        let k1 = choose|k: int| occurs_at(prompt_files(c.2), c.2[i].1, k);
        lemma_occurs_trans(p, prompt_files(c.2), c.2[i].0, before.len() as int, k0);
        lemma_occurs_trans(p, prompt_files(c.2), c.2[i].1, before.len() as int, k1);
    }
}

/// Builds the prompt sent to the model.
pub fn build_prompt(finding: &ErrorFinding, context: &ProjectContext) -> (res: String)
    ensures
        res@ == prompt_text(finding@, context@),
        // The whole error snippet is in the prompt.
        contains_text(res@, finding.raw_snippet@),
{
    proof {
        lemma_prompt_holds_error_and_context(finding@, context@);
        let opening = "The following error occurred in a "@ + toolchain_name(finding.toolchain) + " project:\n\n"@;
        let p = prompt_text(finding@, context@);
        let s = finding.raw_snippet@;
        assert(occurs_at(s + "\n\n"@, s, 0)) by {
            lemma_occurs_in_concat(seq![], s, "\n\n"@);
            assert(seq![] + s + "\n\n"@ =~= s + "\n\n"@);
        }
        lemma_occurs_trans(p, s + "\n\n"@, s, opening.len() as int, 0);
    }
    let mut prompt = String::new();
    push_text(&mut prompt, "The following error occurred in a ");
    push_text(&mut prompt, toolchain_label(finding.toolchain));
    push_text(&mut prompt, " project:\n\n");
    push_text(&mut prompt, finding.raw_snippet.as_str());
    push_text(&mut prompt, "\n\n");
    match &context.relevant_diff {
        Some(diff) => {
            push_text(&mut prompt, "Uncommitted changes:\n```diff\n");
            push_text(&mut prompt, diff.as_str());
            push_text(&mut prompt, "\n```\n\n");
        },
        None => {},
    }
    let ghost head = prompt@;
    assert(head =~= prompt_intro(finding.toolchain, finding.raw_snippet@) + prompt_diff(context@.1));
    let files = &context.relevant_file_snippets;
    let mut i: usize = 0;
    assert(files.deep_view().take(0) =~= Seq::<(Seq<char>, Seq<char>)>::empty());
    while i < files.len()
        invariant
            i <= files.len(),
            prompt@ == head + prompt_files(files.deep_view().take(i as int)),
        decreases files.len() - i,
    {
        let (path, content) = &files[i];
        push_text(&mut prompt, "Contents of file ");
        push_text(&mut prompt, path.as_str());
        push_text(&mut prompt, ":\n```\n");
        push_text(&mut prompt, content.as_str());
        push_text(&mut prompt, "\n```\n\n");
        proof {
            let t = files.deep_view().take(i + 1);
            assert(t.drop_last() =~= files.deep_view().take(i as int));
            assert(t.last() == (path@, content@));
        }
        i = i + 1;
    }
    assert(files.deep_view().take(files.len() as int) =~= files.deep_view());
    push_text(&mut prompt, "Please return only a unified diff that fixes this error, with a one-line explanation. The reply must be exactly this JSON: {\"explanation\": \"...\", \"unified_diff\": \"...\", \"file_path\": \"...\"}");
    prompt
}

/// The reply text with surrounding whitespace and Markdown code fences
/// removed.
pub open spec fn cleaned_reply(text: Seq<char>) -> Seq<char> {
    trimmed(
        strip_suffix_all(
            strip_prefix_all(strip_prefix_all(trimmed(text), "```json"@), "```"@),
            "```"@,
        ),
    )
}

/// Removes whitespace and Markdown fences around the JSON in a reply.
pub fn clean_response_text(text: &str) -> (res: String)
    ensures
        res@ == cleaned_reply(text@),
{
    let a = trim_str(text);
    let b = trim_start_matches(a, "```json");
    let c = trim_start_matches(b.as_str(), "```");
    let d = trim_end_matches(c.as_str(), "```");
    owned(trim_str(d.as_str()))
}

/// The text of the first content block whose type is `text` (`None` when
/// there is no such block, or when that block carries no text).
pub open spec fn first_text(blocks: Seq<(Seq<char>, Option<Seq<char>>)>) -> Option<Seq<char>>
    decreases blocks.len(),
{
    if blocks.len() == 0 {
        None
    } else if blocks[0].0 == "text"@ {
        blocks[0].1
    } else {
        first_text(blocks.drop_first())
    }
}

/// Picks the text of the first `text` block of a reply, given its content
/// blocks as (type, text) pairs.
pub fn first_text_block(blocks: &Vec<(String, Option<String>)>) -> (res: Option<String>)
    ensures
        res.deep_view() == first_text(blocks.deep_view()),
{
    let ghost all = blocks.deep_view();
    let mut i: usize = 0;
    assert(all.skip(0) =~= all);
    while i < blocks.len()
        invariant
            i <= blocks.len(),
            all == blocks.deep_view(),
            first_text(all) == first_text(all.skip(i as int)),
        decreases blocks.len() - i,
    {
        let ghost rest = all.skip(i as int);
        assert(rest[0] == all[i as int]);
        assert(rest.drop_first() =~= all.skip(i + 1));
        let (kind, text) = &blocks[i];
        if text_eq(kind.as_str(), "text") {
            return match text {
                Some(t) => Some(t.clone()),
                None => None,
            };
        }
        i = i + 1;
    }
    None
}

/// What `diffy::create_patch(original, modified).to_string()` returns: the
/// unified diff turning `original` into `modified`.
pub uninterp spec fn diffy_created_patch(original: Seq<char>, modified: Seq<char>) -> Seq<char>;

/// Calls `diffy::create_patch` and formats the patch with `to_string`; the
/// result is named `diffy_created_patch` of the two texts.
#[verifier::external_body]
pub fn create_patch_text(original: &str, modified: &str) -> (res: String)
    ensures
        res@ == diffy_created_patch(original@, modified@),
{
    diffy::create_patch(original, modified).to_string()
}

/// The content of the first file slice whose path is `path` (empty when
/// there is none).
pub open spec fn snippet_for_path(files: Seq<(Seq<char>, Seq<char>)>, path: Seq<char>) -> Seq<char>
    decreases files.len(),
{
    if files.len() == 0 {
        seq![]
    } else if files[0].0 == path {
        files[0].1
    } else {
        snippet_for_path(files.drop_first(), path)
    }
}

/// The first line of `s`, or the empty text when `s` has no line.
pub open spec fn first_line(s: Seq<char>) -> Seq<char> {
    if lines_of(s).len() > 0 {
        lines_of(s)[0]
    } else {
        seq![]
    }
}

/// The file the mock patch targets: the finding's file, else the first
/// file slice of the context, else `MOCK_FALLBACK_PATH`.
pub open spec fn mock_target(f: FindingView, c: ContextView) -> Seq<char> {
    match f.2 {
        Some(p) => p,
        None => if c.2.len() > 0 {
            c.2[0].0
        } else {
            MOCK_FALLBACK_PATH@
        },
    }
}

pub open spec fn mock_explanation(t: Toolchain) -> Seq<char> {
    "[mock] "@ + toolchain_name(t)
        + " error detected; this is a sample patch. Set ANTHROPIC_API_KEY for a real patch."@
}

/// The marker line the mock patch adds.
pub open spec fn mock_marker(t: Toolchain) -> Seq<char> {
    "<!-- jev mock patch: "@ + mock_explanation(t) + " -->"@
}

/// The file slice after the mock change: the marker line is put on a line
/// of its own in front of the slice.
pub open spec fn mock_modified(original: Seq<char>, t: Toolchain) -> Seq<char> {
    mock_marker(t) + "\n"@ + original
}

/// The mock change always changes the text: it is longer than before.
pub proof fn lemma_mock_change_differs(original: Seq<char>, t: Toolchain)
    ensures
        mock_modified(original, t).len() > original.len(),
        mock_modified(original, t) != original,
{
    reveal_strlit("\n");
}

/// The mock diff: for an unknown or empty file, a new-file diff adding the
/// marker line and the first line of the error; otherwise a real diff of
/// the file slice against the slice with the marker line put in front.
pub open spec fn mock_diff(f: FindingView, c: ContextView) -> Seq<char> {
    let path = mock_target(f, c);
    let original = snippet_for_path(c.2, path);
    if original.len() == 0 {
        "--- /dev/null\n+++ b/"@ + path + "\n@@ -0,0 +1,2 @@\n+"@ + mock_marker(f.0) + "\n+"@
            + first_line(f.1) + "\n"@
    } else {
        diffy_created_patch(original, mock_modified(original, f.0))
    }
}

/// Offline provider for demos and tests without an API key. The diff it
/// builds is diffy's diff of the file slice against a changed text (the
/// slice with a marker line in front), which differs from the slice, so the
/// diff is asked for a real change. That diffy then applies this diff to the
/// slice is diffy's behaviour, which the tests exercise; it is not proved here.
pub struct MockProvider;

fn first_line_of(s: &str) -> (res: String)
    ensures
        res@ == first_line(s@),
{
    let lines = split_lines(s);
    if lines.len() > 0 {
        lines[0].clone()
    } else {
        String::new()
    }
}

fn snippet_content(files: &Vec<(String, String)>, path: &str) -> (res: String)
    ensures
        res@ == snippet_for_path(files.deep_view(), path@),
{
    let ghost all = files.deep_view();
    let mut i: usize = 0;
    assert(all.skip(0) =~= all);
    while i < files.len()
        invariant
            i <= files.len(),
            all == files.deep_view(),
            snippet_for_path(all, path@) == snippet_for_path(all.skip(i as int), path@),
        decreases files.len() - i,
    {
        let ghost rest = all.skip(i as int);
        assert(rest[0] == all[i as int]);
        assert(rest.drop_first() =~= all.skip(i + 1));
        let (p, c) = &files[i];
        if text_eq(p.as_str(), path) {
            return c.clone();
        }
        i = i + 1;
    }
    String::new()
}

impl MockProvider {
    /// Produces the mock suggestion for a finding and its context.
    pub fn suggest_patch(&self, finding: &ErrorFinding, context: &ProjectContext) -> (res: PatchSuggestion)
        ensures
            res@ == (
                mock_target(finding@, context@),
                mock_diff(finding@, context@),
                mock_explanation(finding.toolchain),
            ),
            // For a known file slice, the diff is diffy's diff of it against a different text.
            ({
                let slice = snippet_for_path(context@.2, mock_target(finding@, context@));
                slice.len() > 0 ==> res.unified_diff@ == diffy_created_patch(
                    slice,
                    mock_modified(slice, finding.toolchain),
                ) && mock_modified(slice, finding.toolchain) != slice
            }),
    {
        let file_path = match &finding.file_hint {
            Some(p) => p.clone(),
            None => if context.relevant_file_snippets.len() > 0 {
                context.relevant_file_snippets[0].0.clone()
            } else {
                owned(MOCK_FALLBACK_PATH)
            },
        };
        let original = snippet_content(&context.relevant_file_snippets, file_path.as_str());
        let mut explanation = String::new();
        push_text(&mut explanation, "[mock] ");
        push_text(&mut explanation, toolchain_label(finding.toolchain));
        push_text(
            &mut explanation,
            " error detected; this is a sample patch. Set ANTHROPIC_API_KEY for a real patch.",
        );
        let unified_diff = if original.as_str().is_empty() {
            let mut d = String::new();
            push_text(&mut d, "--- /dev/null\n+++ b/");
            push_text(&mut d, file_path.as_str());
            push_text(&mut d, "\n@@ -0,0 +1,2 @@\n+");
            push_text(&mut d, "<!-- jev mock patch: ");
            push_text(&mut d, explanation.as_str());
            push_text(&mut d, " -->");
            push_text(&mut d, "\n+");
            let first = first_line_of(finding.raw_snippet.as_str());
            push_text(&mut d, first.as_str());
            push_text(&mut d, "\n");
            d
        } else {
            let mut modified = String::new();
            push_text(&mut modified, "<!-- jev mock patch: ");
            push_text(&mut modified, explanation.as_str());
            push_text(&mut modified, " -->");
            push_text(&mut modified, "\n");
            push_text(&mut modified, original.as_str());
            assert(explanation@ == mock_explanation(finding.toolchain));
            assert(modified@ =~= mock_modified(original@, finding.toolchain));
            create_patch_text(original.as_str(), modified.as_str())
        };
        proof {
            lemma_mock_change_differs(original@, finding.toolchain);
        }
        PatchSuggestion { file_path, unified_diff, explanation }
    }
}

} // verus!
