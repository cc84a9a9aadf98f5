//! What the diff overlay shows: each diff line with its colour, under a
//! title naming the file and the explanation.
use vstd::prelude::*;

use crate::ai::PatchSuggestion;
use crate::text::{lines_of, push_text, split_lines, starts_with, starts_with_text};

verus! {

/// How a diff line is coloured: additions green, removals red.
#[derive(Debug, Clone, Copy, PartialEq, Eq, Structural)]
pub enum LineStyle {
    Added,
    Removed,
    Plain,
}

pub open spec fn style_of(line: Seq<char>) -> LineStyle {
    if starts_with_text(line, "+"@) {
        LineStyle::Added
    } else if starts_with_text(line, "-"@) {
        LineStyle::Removed
    } else {
        LineStyle::Plain
    }
}

/// The colour of a diff line, like `git diff`.
pub fn line_style(line: &str) -> (res: LineStyle)
    ensures
        res == style_of(line@),
{
    if starts_with(line, "+") {
        LineStyle::Added
    } else if starts_with(line, "-") {
        LineStyle::Removed
    } else {
        LineStyle::Plain
    }
}

/// The overlay title.
pub open spec fn title_text(p: (Seq<char>, Seq<char>, Seq<char>)) -> Seq<char> {
    " Suggested patch for "@ + p.0 + " — "@ + p.2 + " "@
}

/// The overlay title for a suggestion.
pub fn overlay_title(patch: &PatchSuggestion) -> (res: String)
    ensures
        res@ == title_text(patch@),
{
    let mut s = String::new();
    push_text(&mut s, " Suggested patch for ");
    push_text(&mut s, patch.file_path.as_str());
    push_text(&mut s, " — ");
    push_text(&mut s, patch.explanation.as_str());
    push_text(&mut s, " ");
    s
}

/// The lines of the diff, each with its colour.
pub fn styled_lines(patch: &PatchSuggestion) -> (res: Vec<(String, LineStyle)>)
    ensures
        res@.len() == lines_of(patch.unified_diff@).len(),
        forall|i: int|
            0 <= i < res@.len() ==> (#[trigger] res@[i]).0@ == lines_of(patch.unified_diff@)[i]
                && res@[i].1 == style_of(lines_of(patch.unified_diff@)[i]),
{
    let lines = split_lines(patch.unified_diff.as_str());
    let mut res: Vec<(String, LineStyle)> = Vec::new();
    let mut i: usize = 0;
    while i < lines.len()
        invariant
            i <= lines.len(),
            lines.deep_view() == lines_of(patch.unified_diff@),
            res@.len() == i,
            forall|j: int|
                0 <= j < i ==> (#[trigger] res@[j]).0@ == lines.deep_view()[j] && res@[j].1 == style_of(
                    lines.deep_view()[j],
                ),
        decreases lines.len() - i,
    {
        let style = line_style(lines[i].as_str());
        res.push((lines[i].clone(), style));
        i = i + 1;
    }
    res
}

} // verus!
