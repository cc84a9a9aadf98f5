//! Builds the context for a patch request from what was read around an
//! error: the project kind, the uncommitted diff, and a slice of the file
//! the error points at. Sizes are capped so prompts stay bounded.
use vstd::prelude::*;

use super::ProjectContext;
use crate::errors::ErrorFinding;
use crate::text::{
    first_chars, join_strings, join_with, lemma_join_lines_newlines, lemma_lines_of_count,
    lemma_lines_of_no_newline, lemma_newline_count_take_first, lines_of, no_newline, owned, push_text,
    split_lines, take_first, trim_str, trimmed,
};

verus! {

/// The diff is cut to this many characters.
pub const DIFF_CHARS: usize = 8000;

/// A file slice around a reported line holds at most this many lines.
pub const FILE_LINES: usize = 60;

/// Lines kept before and after the reported line, so that a slice of the
/// reported line with its context stays within `FILE_LINES` lines.
pub const FILE_CONTEXT_LINES: usize = 29;

/// A file slice is cut to this many characters.
pub const FILE_CHARS: usize = 6000;

/// At most this many untracked files are shown.
pub const UNTRACKED_FILES: usize = 5;

/// Each untracked file is cut to this many characters.
pub const UNTRACKED_CHARS: usize = 2000;

/// Marker appended when more untracked files exist than are shown.
pub const UNTRACKED_OMITTED: &'static str = "... (more untracked files omitted)\n";

/// The first `max_chars` characters of `s`.
pub fn truncate_chars(s: &str, max_chars: usize) -> (res: String)
    ensures
        res@ == take_first(s@, max_chars as int),
{
    first_chars(s, max_chars)
}

pub open spec fn sat_sub(a: int, b: int) -> int {
    if a >= b {
        a - b
    } else {
        0
    }
}

pub open spec fn min_int(a: int, b: int) -> int {
    if a <= b {
        a
    } else {
        b
    }
}

/// The index of the reported line among `n` lines (clamped to the last one).
pub open spec fn slice_center(n: int, line_1based: int) -> int {
    min_int(sat_sub(line_1based, 1), n - 1)
}

/// The range of line indices kept around the reported line among `n` lines.
pub open spec fn slice_range(n: int, line_1based: int, context_lines: int) -> (int, int) {
    let idx = slice_center(n, line_1based);
    (sat_sub(idx, context_lines), min_int(idx + context_lines + 1, n))
}

/// The lines `context_lines` before and after line `line_1based` (clamped
/// to the file), joined with newlines and cut to `max_chars` characters.
pub open spec fn slice_model(content: Seq<char>, line_1based: int, context_lines: int, max_chars: int) -> Seq<char> {
    let ls = lines_of(content);
    if ls.len() == 0 {
        seq![]
    } else {
        let (start, end) = slice_range(ls.len() as int, line_1based, context_lines);
        take_first(join_with(ls.subrange(start, end), "\n"@), max_chars)
    }
}

/// The kept range lies within the file, holds the (clamped) reported line,
/// and spans at most `context_lines` lines on either side of it.
pub proof fn lemma_slice_range_bounds(n: int, line_1based: int, context_lines: int)
    requires
        n > 0,
        context_lines >= 0,
    ensures
        ({
            let (start, end) = slice_range(n, line_1based, context_lines);
            let idx = slice_center(n, line_1based);
            &&& 0 <= start <= idx < end <= n
            &&& idx - start <= context_lines
            &&& end - idx <= context_lines + 1
        }),
{
}

/// A kept file slice is never longer than `max_chars` characters.
pub proof fn lemma_slice_is_bounded(content: Seq<char>, line_1based: int, context_lines: int, max_chars: int)
    requires
        max_chars >= 0,
    ensures
        slice_model(content, line_1based, context_lines, max_chars).len() <= max_chars,
{
}

/// A file slice holds at most the reported line and `context_lines` lines
/// on either side of it.
pub proof fn lemma_slice_line_count(content: Seq<char>, line_1based: int, context_lines: int, max_chars: int)
    requires
        context_lines >= 0,
        max_chars >= 0,
    ensures
        lines_of(slice_model(content, line_1based, context_lines, max_chars)).len() <= 2 * context_lines + 1,
{
    let ls = lines_of(content);
    if ls.len() > 0 {
        let (start, end) = slice_range(ls.len() as int, line_1based, context_lines);
        lemma_slice_range_bounds(ls.len() as int, line_1based, context_lines);
        let parts = ls.subrange(start, end);
        lemma_lines_of_no_newline(content);
        assert forall|i: int| 0 <= i < parts.len() implies no_newline(#[trigger] parts[i]) by {
            assert(parts[i] == ls[start + i]);
        }
        lemma_join_lines_newlines(parts);
        let joined = join_with(parts, "\n"@);
        lemma_newline_count_take_first(joined, max_chars);
        lemma_lines_of_count(take_first(joined, max_chars));
    }
}

/// Returns `context_lines` lines before and after `line_1based`.
pub fn slice_around(content: &str, line_1based: usize, context_lines: usize, max_chars: usize) -> (res: String)
    ensures
        res@ == slice_model(content@, line_1based as int, context_lines as int, max_chars as int),
{
    let lines = split_lines(content);
    if lines.len() == 0 {
        return String::new();
    }
    let below = if line_1based >= 1 { line_1based - 1 } else { 0 };
    let idx = if below <= lines.len() - 1 { below } else { lines.len() - 1 };
    let start = if idx >= context_lines { idx - context_lines } else { 0 };
    let end = if context_lines < lines.len() - idx { idx + context_lines + 1 } else { lines.len() };
    let joined = join_strings(&lines, start, end, "\n");
    truncate_chars(joined.as_str(), max_chars)
}

/// The diff kept in the context: present only when it is not blank, and cut
/// to `DIFF_CHARS` characters.
pub open spec fn kept_diff(diff: Option<Seq<char>>) -> Option<Seq<char>> {
    match diff {
        Some(d) => if trimmed(d).len() == 0 {
            None
        } else {
            Some(take_first(d, DIFF_CHARS as int))
        },
        None => None,
    }
}

/// The file slice kept in the context for a finding and the content of the
/// file it points at.
pub open spec fn kept_snippets(
    file_hint: Option<Seq<char>>,
    line_hint: Option<u32>,
    content: Option<Seq<char>>,
) -> Seq<(Seq<char>, Seq<char>)> {
    match (file_hint, content) {
        (Some(f), Some(c)) => seq![
            (
                f,
                match line_hint {
                    Some(l) => slice_model(c, l as int, FILE_CONTEXT_LINES as int, FILE_CHARS as int),
                    None => take_first(c, FILE_CHARS as int),
                },
            ),
        ],
        _ => seq![],
    }
}

/// The context stays within its caps: the diff has at most `DIFF_CHARS`
/// characters, and at most one file slice is kept, of at most `FILE_CHARS`
/// characters and, around a reported line, of at most `FILE_LINES` lines.
pub proof fn lemma_context_is_bounded(
    diff: Option<Seq<char>>,
    file_hint: Option<Seq<char>>,
    line_hint: Option<u32>,
    content: Option<Seq<char>>,
)
    ensures
        kept_diff(diff) matches Some(d) ==> d.len() <= DIFF_CHARS,
        kept_snippets(file_hint, line_hint, content).len() <= 1,
        forall|i: int|
            0 <= i < kept_snippets(file_hint, line_hint, content).len() ==> (#[trigger] kept_snippets(
                file_hint,
                line_hint,
                content,
            )[i]).1.len() <= FILE_CHARS,
        forall|i: int|
            0 <= i < kept_snippets(file_hint, line_hint, content).len() && line_hint is Some
                ==> lines_of((#[trigger] kept_snippets(file_hint, line_hint, content)[i]).1).len()
                <= FILE_LINES,
{
    match (file_hint, content) {
        (Some(f), Some(c)) => match line_hint {
            Some(l) => {
                lemma_slice_is_bounded(c, l as int, FILE_CONTEXT_LINES as int, FILE_CHARS as int);
                lemma_slice_line_count(c, l as int, FILE_CONTEXT_LINES as int, FILE_CHARS as int);
            },
            None => {},
        },
        _ => {},
    }
}

/// Builds the context for a finding from what was read: the detected project
/// kind, the uncommitted diff (if the repository could be read), and the
/// content of the file named by the finding (if it could be read).
pub fn collect(
    project_kind: Option<&str>,
    uncommitted_diff: Option<&str>,
    finding: &ErrorFinding,
    file_content: Option<&str>,
) -> (res: ProjectContext)
    ensures
        res.project_kind.deep_view() == (match project_kind {
            Some(k) => Some(k@),
            None => None::<Seq<char>>,
        }),
        res.relevant_diff.deep_view() == kept_diff(match uncommitted_diff {
            Some(d) => Some(d@),
            None => None::<Seq<char>>,
        }),
        res.relevant_file_snippets.deep_view() == kept_snippets(
            finding.file_hint.deep_view(),
            finding.line_hint,
            match file_content {
                Some(c) => Some(c@),
                None => None::<Seq<char>>,
            },
        ),
        res.relevant_file_snippets.len() <= 1,
        forall|i: int|
            0 <= i < res.relevant_file_snippets.len() ==> {
                let c = (#[trigger] res.relevant_file_snippets.deep_view()[i]).1;
                &&& c.len() <= FILE_CHARS
                &&& finding.line_hint is Some ==> lines_of(c).len() <= FILE_LINES
            },
{
    let kind = match project_kind {
        Some(k) => Some(owned(k)),
        None => None,
    };
    let diff = match uncommitted_diff {
        Some(d) => if trim_str(d).is_empty() {
            None
        } else {
            Some(truncate_chars(d, DIFF_CHARS))
        },
        None => None,
    };
    let mut snippets: Vec<(String, String)> = Vec::new();
    match (&finding.file_hint, file_content) {
        (Some(f), Some(c)) => {
            let sliced = match finding.line_hint {
                Some(l) => slice_around(c, l as usize, FILE_CONTEXT_LINES, FILE_CHARS),
                None => truncate_chars(c, FILE_CHARS),
            };
            snippets.push((f.clone(), sliced));
        },
        _ => {},
    }
    let res = ProjectContext { project_kind: kind, relevant_diff: diff, relevant_file_snippets: snippets };
    assert(res.relevant_file_snippets.deep_view() =~= kept_snippets(
        finding.file_hint.deep_view(),
        finding.line_hint,
        match file_content {
            Some(c) => Some(c@),
            None => None::<Seq<char>>,
        },
    ));
    proof {
        lemma_context_is_bounded(
            match uncommitted_diff {
                Some(d) => Some(d@),
                None => None::<Seq<char>>,
            },
            finding.file_hint.deep_view(),
            finding.line_hint,
            match file_content {
                Some(c) => Some(c@),
                None => None::<Seq<char>>,
            },
        );
    }
    res
}

/// The section shown for one untracked file.
pub open spec fn untracked_section(path: Seq<char>, content: Seq<char>) -> Seq<char> {
    "\n--- new file: "@ + path + "\n"@ + take_first(content, UNTRACKED_CHARS as int) + "\n"@
}

/// The text shown for untracked files, given in status order with their
/// content (`None` when unreadable): readable files are shown until
/// `UNTRACKED_FILES` have been shown; a further file adds the omission
/// marker and ends the list.
pub open spec fn untracked_text(entries: Seq<(Seq<char>, Option<Seq<char>>)>, shown: int) -> Seq<char>
    decreases entries.len(),
{
    if entries.len() == 0 {
        seq![]
    } else if shown >= UNTRACKED_FILES {
        UNTRACKED_OMITTED@
    } else {
        match entries[0].1 {
            Some(c) => untracked_section(entries[0].0, c) + untracked_text(entries.drop_first(), shown + 1),
            None => untracked_text(entries.drop_first(), shown),
        }
    }
}

/// Renders the untracked files section.
pub fn render_untracked(entries: &Vec<(String, Option<String>)>) -> (res: String)
    ensures
        res@ == untracked_text(entries.deep_view(), 0),
{
    let ghost all = entries.deep_view();
    let mut out = String::new();
    let mut shown: usize = 0;
    let mut i: usize = 0;
    assert(all.skip(0) =~= all);
    while i < entries.len()
        invariant
            i <= entries.len(),
            all == entries.deep_view(),
            shown <= UNTRACKED_FILES,
            untracked_text(all, 0) == out@ + untracked_text(all.skip(i as int), shown as int),
        decreases entries.len() - i,
    {
        let ghost rest = all.skip(i as int);
        assert(rest.drop_first() =~= all.skip(i + 1));
        assert(rest[0] == all[i as int]);
        if shown >= UNTRACKED_FILES {
            push_text(&mut out, UNTRACKED_OMITTED);
            return out;
        }
        let (path, content) = &entries[i];
        match content {
            Some(c) => {
                let ghost before = out@;
                push_text(&mut out, "\n--- new file: ");
                push_text(&mut out, path.as_str());
                push_text(&mut out, "\n");
                let cut = truncate_chars(c.as_str(), UNTRACKED_CHARS);
                push_text(&mut out, cut.as_str());
                push_text(&mut out, "\n");
                assert(out@ =~= before + untracked_section(path@, c@));
                shown = shown + 1;
            },
            None => {},
        }
        i = i + 1;
    }
    assert(all.skip(i as int).len() == 0);
    assert(out@ + untracked_text(all.skip(i as int), shown as int) =~= out@);
    out
}

} // verus!
