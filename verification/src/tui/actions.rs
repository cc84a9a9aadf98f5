//! Key bindings, patch paths and the checks made before and while a patch
//! is applied.
//!
//! A patch is applied hunk by hunk: its target path must be relative and
//! free of `..`, the diff must be a non-blank unified diff with at least one
//! hunk, and only then is the patched content produced.
use vstd::prelude::*;

use crate::ai::PatchSuggestion;
use crate::errors::detector::{parse_decimal, parsed_unsigned};
use crate::text::{
    contains_text, lemma_first_index_from_occurs, lemma_lines_of_occur, lemma_occurs_take_skip,
    lemma_occurs_trans, occurs_at, char_count, find_text, first_index, lines_of, owned, push_text, split_lines, starts_with,
    starts_with_text, substring, trim_str, trimmed,
};

verus! {

/// What the user asked for in the review overlay.
#[derive(Debug, Clone, Copy, PartialEq, Eq, Structural)]
pub enum UserAction {
    Apply,
    Edit,
    Dismiss,
}

/// The key of a key press, as far as the bindings look at it.
#[derive(Debug, Clone, Copy, PartialEq, Eq, Structural)]
pub enum KeyCode {
    Char(char),
    Esc,
    Other,
}

/// A key press: the key and the bits of the held modifiers
/// (shift 1, control 2, alt 4, super 8, hyper 16, meta 32).
#[derive(Debug, Clone, Copy, PartialEq, Eq, Structural)]
pub struct KeyPress {
    pub code: KeyCode,
    pub modifiers: u8,
}

/// The modifier bits of control held alone.
pub const CONTROL: u8 = 2;

/// The action bound to a key press: Ctrl+F applies, Ctrl+E edits, Esc
/// dismisses (whatever the modifiers).
pub open spec fn key_action(key: KeyPress) -> Option<UserAction> {
    match key.code {
        KeyCode::Char(c) => if c == 'f' && key.modifiers == CONTROL {
            Some(UserAction::Apply)
        } else if c == 'e' && key.modifiers == CONTROL {
            Some(UserAction::Edit)
        } else {
            None
        },
        KeyCode::Esc => Some(UserAction::Dismiss),
        KeyCode::Other => None,
    }
}

/// Maps a pressed key to a user action.
pub fn map_key(key: KeyPress) -> (res: Option<UserAction>)
    ensures
        res == key_action(key),
{
    match key.code {
        KeyCode::Char(c) => {
            if c == 'f' && key.modifiers == CONTROL {
                Some(UserAction::Apply)
            } else if c == 'e' && key.modifiers == CONTROL {
                Some(UserAction::Edit)
            } else {
                None
            }
        },
        KeyCode::Esc => Some(UserAction::Dismiss),
        KeyCode::Other => None,
    }
}

/// The kinds of component of a path, as `std::path::Component` tells them apart.
#[derive(Debug, Clone, Copy, PartialEq, Eq, Structural)]
pub enum PathPart {
    Prefix,
    RootDir,
    CurDir,
    ParentDir,
    Normal,
}

/// The kinds of the components `std::path::Path::components` yields for a path.
pub uninterp spec fn path_parts(path: Seq<char>) -> Seq<PathPart>;

/// Calls `Path::components` and maps each component to its kind; the
/// result is named `path_parts` of the path.
#[verifier::external_body]
pub fn path_components(path: &str) -> (res: Vec<PathPart>)
    ensures
        res@ == path_parts(path@),
{
    let mut parts = Vec::new();
    for c in std::path::Path::new(path).components() {
        parts.push(match c {
            std::path::Component::Prefix(_) => PathPart::Prefix,
            std::path::Component::RootDir => PathPart::RootDir,
            std::path::Component::CurDir => PathPart::CurDir,
            std::path::Component::ParentDir => PathPart::ParentDir,
            std::path::Component::Normal(_) => PathPart::Normal,
        });
    }
    parts
}

/// What `Path::is_absolute` says of a path.
pub uninterp spec fn path_absolute(path: Seq<char>) -> bool;

/// Calls `Path::is_absolute`; the result is named `path_absolute` of the path.
#[verifier::external_body]
pub fn path_is_absolute(path: &str) -> (res: bool)
    ensures
        res == path_absolute(path@),
{
    std::path::Path::new(path).is_absolute()
}

/// What `Path::join` gives for a base path and a part.
pub uninterp spec fn path_joined(base: Seq<char>, part: Seq<char>) -> Seq<char>;

/// Calls `Path::join`; the result is named `path_joined` of the two paths.
#[verifier::external_body]
pub fn join_path(base: &str, part: &str) -> (res: String)
    ensures
        res@ == path_joined(base@, part@),
{
    std::path::Path::new(base).join(part).to_string_lossy().into_owned()
}

/// Why a patch was refused.
#[derive(Debug, Clone, Copy, PartialEq, Eq, Structural)]
pub enum PatchErrorKind {
    /// The target path is absolute.
    AbsolutePath,
    /// The target path has a `..` component.
    ParentDirInPath,
    /// The target path has a root or prefix component.
    InvalidPath,
    /// The diff is blank.
    EmptyPatch,
    /// The diff does not parse as a unified diff.
    InvalidDiff,
    /// The diff has no hunks.
    NoHunks,
    /// A hunk does not fit the target file.
    ApplyFailed,
}

/// A refused patch: the reason and its detail (the path, or the diff
/// library's message).
#[derive(Debug, Clone)]
pub struct PatchError {
    pub kind: PatchErrorKind,
    pub detail: String,
}

impl View for PatchError {
    type V = (PatchErrorKind, Seq<char>);

    open spec fn view(&self) -> (PatchErrorKind, Seq<char>) {
        (self.kind, self.detail@)
    }
}

/// The message shown for a refused patch.
pub open spec fn patch_error_text(kind: PatchErrorKind, detail: Seq<char>) -> Seq<char> {
    match kind {
        PatchErrorKind::AbsolutePath => "Patch path must be relative, not absolute: "@ + detail,
        PatchErrorKind::ParentDirInPath => "Patch path must not contain `..`: "@ + detail,
        PatchErrorKind::InvalidPath => "Invalid patch path: "@ + detail,
        PatchErrorKind::EmptyPatch => "Patch is empty — nothing to apply"@,
        PatchErrorKind::InvalidDiff => "Patch is not a valid unified diff: "@ + detail,
        PatchErrorKind::NoHunks => "Patch is not a valid unified diff (no hunks found)"@,
        PatchErrorKind::ApplyFailed => "Failed to apply patch to target file (incompatible context/hunk): "@
            + detail,
    }
}

impl PatchError {
    /// The message shown for this error.
    pub fn message(&self) -> (res: String)
        ensures
            res@ == patch_error_text(self.kind, self.detail@),
    {
        let mut s = String::new();
        match self.kind {
            PatchErrorKind::AbsolutePath => {
                push_text(&mut s, "Patch path must be relative, not absolute: ");
                push_text(&mut s, self.detail.as_str());
            },
            PatchErrorKind::ParentDirInPath => {
                push_text(&mut s, "Patch path must not contain `..`: ");
                push_text(&mut s, self.detail.as_str());
            },
            PatchErrorKind::InvalidPath => {
                push_text(&mut s, "Invalid patch path: ");
                push_text(&mut s, self.detail.as_str());
            },
            PatchErrorKind::EmptyPatch => {
                push_text(&mut s, "Patch is empty — nothing to apply");
            },
            PatchErrorKind::InvalidDiff => {
                push_text(&mut s, "Patch is not a valid unified diff: ");
                push_text(&mut s, self.detail.as_str());
            },
            PatchErrorKind::NoHunks => {
                push_text(&mut s, "Patch is not a valid unified diff (no hunks found)");
            },
            PatchErrorKind::ApplyFailed => {
                push_text(&mut s, "Failed to apply patch to target file (incompatible context/hunk): ");
                push_text(&mut s, self.detail.as_str());
            },
        }
        s
    }
}

/// The first component that makes a patch path unsafe: a `..`, a root or a
/// prefix.
pub open spec fn first_bad_part(parts: Seq<PathPart>) -> Option<PathPart>
    decreases parts.len(),
{
    if parts.len() == 0 {
        None
    } else if parts[0] == PathPart::ParentDir || parts[0] == PathPart::Prefix || parts[0] == PathPart::RootDir {
        Some(parts[0])
    } else {
        first_bad_part(parts.drop_first())
    }
}

/// Where a patch path leads under `root`: refused when absolute, when its
/// first unsafe component is `..`, or when it holds a root or prefix;
/// otherwise the path joined under `root`.
pub open spec fn resolved_target(root: Seq<char>, file_path: Seq<char>) -> Result<Seq<char>, (PatchErrorKind, Seq<char>)> {
    if path_absolute(file_path) {
        Err((PatchErrorKind::AbsolutePath, file_path))
    } else {
        match first_bad_part(path_parts(file_path)) {
            Some(PathPart::ParentDir) => Err((PatchErrorKind::ParentDirInPath, file_path)),
            Some(_) => Err((PatchErrorKind::InvalidPath, file_path)),
            None => Ok(path_joined(root, file_path)),
        }
    }
}

pub open spec fn result_matches(res: Result<String, PatchError>, model: Result<Seq<char>, (PatchErrorKind, Seq<char>)>) -> bool {
    match res {
        Ok(t) => model == Ok::<Seq<char>, (PatchErrorKind, Seq<char>)>(t@),
        Err(e) => model == Err::<Seq<char>, (PatchErrorKind, Seq<char>)>(e@),
    }
}

fn patch_error(kind: PatchErrorKind, detail: &str) -> (res: PatchError)
    ensures
        res@ == (kind, detail@),
{
    PatchError { kind, detail: owned(detail) }
}

fn bare_error(kind: PatchErrorKind) -> (res: PatchError)
    ensures
        res@ == (kind, Seq::<char>::empty()),
{
    PatchError { kind, detail: String::new() }
}

/// Makes sure the patch path does not escape `root`, and gives the target.
pub fn resolve_target(root: &str, file_path: &str) -> (res: Result<String, PatchError>)
    ensures
        result_matches(res, resolved_target(root@, file_path@)),
        // A path that is accepted is relative and has no `..`, root or prefix component.
        res is Ok ==> !path_absolute(file_path@) && first_bad_part(path_parts(file_path@)) is None,
{
    if path_is_absolute(file_path) {
        return Err(patch_error(PatchErrorKind::AbsolutePath, file_path));
    }
    let parts = path_components(file_path);
    let ghost all = parts@;
    let mut i: usize = 0;
    assert(all.skip(0) =~= all);
    while i < parts.len()
        invariant
            i <= parts.len(),
            all == parts@,
            all == path_parts(file_path@),
            !path_absolute(file_path@),
            first_bad_part(all) == first_bad_part(all.skip(i as int)),
        decreases parts.len() - i,
    {
        let ghost rest = all.skip(i as int);
        assert(rest[0] == all[i as int]);
        assert(rest.drop_first() =~= all.skip(i + 1));
        let part = parts[i];
        assert(part == rest[0]);
        match part {
            PathPart::ParentDir => {
                assert(first_bad_part(rest) == Some(PathPart::ParentDir));
                return Err(patch_error(PatchErrorKind::ParentDirInPath, file_path));
            },
            PathPart::Prefix | PathPart::RootDir => {
                assert(first_bad_part(rest) == Some(part));
                return Err(patch_error(PatchErrorKind::InvalidPath, file_path));
            },
            _ => {},
        }
        i = i + 1;
    }
    Ok(join_path(root, file_path))
}

/// The target of a patch under `root`, refused as `resolved_target` says,
/// or when the diff is blank.
pub open spec fn checked_target(root: Seq<char>, p: (Seq<char>, Seq<char>, Seq<char>)) -> Result<Seq<char>, (PatchErrorKind, Seq<char>)> {
    match resolved_target(root, p.0) {
        Err(e) => Err(e),
        Ok(t) => if trimmed(p.1).len() == 0 {
            Err((PatchErrorKind::EmptyPatch, seq![]))
        } else {
            Ok(t)
        },
    }
}

/// The checks made before the target file is read: a safe path and a
/// non-blank diff. Gives the target path.
pub fn check_patch(root: &str, patch: &PatchSuggestion) -> (res: Result<String, PatchError>)
    ensures
        result_matches(res, checked_target(root@, patch@)),
{
    let target = resolve_target(root, patch.file_path.as_str())?;
    if trim_str(patch.unified_diff.as_str()).is_empty() {
        return Err(bare_error(PatchErrorKind::EmptyPatch));
    }
    Ok(target)
}

/// The length of a hunk range plus its start fits in `usize`, when the range
/// text parses as `start,len` or as `start` (length 1). A range that does not
/// parse fits: the diff is refused as unparsable before any sum is formed.
pub open spec fn range_fits(r: Seq<char>) -> bool {
    let max = usize::MAX as nat;
    match first_index(r, ","@) {
        Some(c) => match (parsed_unsigned(r.take(c), max), parsed_unsigned(r.skip(c + 1), max)) {
            (Some(a), Some(b)) => a + b <= max,
            _ => true,
        },
        None => match parsed_unsigned(r, max) {
            Some(a) => a + 1 <= max,
            None => true,
        },
    }
}

/// The two ranges of a hunk header line (`@@ -old +new @@ ...`) fit: the text
/// between `@@ ` and the first ` @@` is split at its first space, and the
/// ranges after `-` and `+` are checked. Anything that does not have this
/// shape fits, as the parse refuses it.
pub open spec fn header_fits(line: Seq<char>) -> bool {
    let rest = line.skip(3);
    match first_index(rest, " @@"@) {
        None => true,
        Some(i) => {
            let ranges = rest.take(i);
            match first_index(ranges, " "@) {
                None => true,
                Some(j) => {
                    let r1 = ranges.take(j);
                    let r2 = ranges.skip(j + 1);
                    (!starts_with_text(r1, "-"@) || range_fits(r1.skip(1))) && (!starts_with_text(r2, "+"@)
                        || range_fits(r2.skip(1)))
                },
            }
        },
    }
}

/// A hunk header line.
pub open spec fn is_hunk_header(line: Seq<char>) -> bool {
    starts_with_text(line, "@@ "@)
}

/// Every hunk header of a diff that another hunk header follows has ranges
/// whose start plus length fits in `usize`. Diffy adds the start and the
/// length of each hunk but the last to check the hunk order; this is what
/// keeps that sum from overflowing. When it fails, `Patch::from_str` cannot
/// succeed on the diff: the sum overflows, or the hunks are reported out of
/// order, or the text does not parse at all.
pub open spec fn hunk_ranges_fit(diff: Seq<char>) -> bool {
    let ls = lines_of(diff);
    forall|k: int, m: int|
        0 <= k < m < ls.len() && is_hunk_header(#[trigger] ls[k]) && is_hunk_header(#[trigger] ls[m])
            ==> header_fits(ls[k])
}

/// The characters `t[i..j]` read as a decimal number (within `usize`) that is
/// more than half of `usize::MAX`.
pub open spec fn large_number_at(t: Seq<char>, i: int, j: int) -> bool {
    &&& 0 <= i <= j <= t.len()
    &&& match parsed_unsigned(t.subrange(i, j), usize::MAX as nat) {
        Some(v) => 2 * v + 1 > usize::MAX,
        None => false,
    }
}

/// Some part of `t` reads as a decimal number more than half of `usize::MAX`.
pub open spec fn holds_large_number(t: Seq<char>) -> bool {
    exists|i: int, j: int| large_number_at(t, i, j)
}

/// A large number in a part of a text is a large number of the text.
proof fn lemma_large_number_in_part(t: Seq<char>, part: Seq<char>, p: int)
    requires
        occurs_at(t, part, p),
        holds_large_number(part),
    ensures
        holds_large_number(t),
{
    let (i, j) = choose|i: int, j: int| large_number_at(part, i, j);
    assert(t.subrange(p + i, p + j) =~= part.subrange(i, j));
    assert(large_number_at(t, p + i, p + j));
}

/// A range is refused only when it holds a number above half of
/// `usize::MAX`: two numbers that sum past `usize::MAX`, or a start equal to
/// it, have such a number among them.
pub proof fn lemma_refused_range_is_large(r: Seq<char>)
    ensures
        !range_fits(r) ==> holds_large_number(r),
{
    let max = usize::MAX as nat;
    if !range_fits(r) {
        reveal_strlit(",");
        lemma_first_index_from_occurs(r, ","@, 0);
        match first_index(r, ","@) {
            Some(c) => {
                lemma_occurs_take_skip(r, c);
                lemma_occurs_take_skip(r, c + 1);
                assert(r.subrange(0, c) =~= r.take(c));
                assert(r.subrange(c + 1, r.len() as int) =~= r.skip(c + 1));
                let a = parsed_unsigned(r.take(c), max)->Some_0;
                let b = parsed_unsigned(r.skip(c + 1), max)->Some_0;
                if a >= b {
                    assert(large_number_at(r, 0, c));
                } else {
                    assert(large_number_at(r, c + 1, r.len() as int));
                }
            },
            None => {
                assert(r.subrange(0, r.len() as int) =~= r);
                assert(large_number_at(r, 0, r.len() as int));
            },
        }
    }
}

/// A hunk header is refused only when it holds a number above half of
/// `usize::MAX`.
pub proof fn lemma_refused_header_is_large(line: Seq<char>)
    requires
        line.len() >= 3,
    ensures
        !header_fits(line) ==> holds_large_number(line),
{
    if !header_fits(line) {
        reveal_strlit(" @@");
        reveal_strlit(" ");
        reveal_strlit("-");
        reveal_strlit("+");
        let rest = line.skip(3);
        lemma_occurs_take_skip(line, 3);
        lemma_first_index_from_occurs(rest, " @@"@, 0);
        let i = first_index(rest, " @@"@)->Some_0;
        let ranges = rest.take(i);
        lemma_occurs_take_skip(rest, i);
        lemma_occurs_trans(line, rest, ranges, 3, 0);
        lemma_first_index_from_occurs(ranges, " "@, 0);
        let j = first_index(ranges, " "@)->Some_0;
        let r1 = ranges.take(j);
        let r2 = ranges.skip(j + 1);
        lemma_occurs_take_skip(ranges, j);
        lemma_occurs_take_skip(ranges, j + 1);
        if starts_with_text(r1, "-"@) && !range_fits(r1.skip(1)) {
            lemma_occurs_take_skip(r1, 1);
            lemma_refused_range_is_large(r1.skip(1));
            lemma_large_number_in_part(r1, r1.skip(1), 1);
            lemma_large_number_in_part(ranges, r1, 0);
        } else {
            lemma_occurs_take_skip(r2, 1);
            lemma_refused_range_is_large(r2.skip(1));
            lemma_large_number_in_part(r2, r2.skip(1), 1);
            lemma_large_number_in_part(ranges, r2, j + 1);
        }
        lemma_large_number_in_part(rest, ranges, 0);
        lemma_large_number_in_part(line, rest, 3);
    }
}

/// The range check refuses only diffs that hold a number above half of
/// `usize::MAX`: a diff whose numbers are all at most half of `usize::MAX`
/// (any ordinary diff) passes it, however many hunks it has.
pub proof fn lemma_small_numbers_pass(diff: Seq<char>)
    ensures
        !holds_large_number(diff) ==> hunk_ranges_fit(diff),
{
    if !hunk_ranges_fit(diff) {
        let ls = lines_of(diff);
        let (k, m) = choose|k: int, m: int|
            0 <= k < m < ls.len() && is_hunk_header(#[trigger] ls[k]) && is_hunk_header(#[trigger] ls[m])
                && !header_fits(ls[k]);
        reveal_strlit("@@ ");
        lemma_refused_header_is_large(ls[k]);
        lemma_lines_of_occur(diff);
        let line = ls[k];
        let p = choose|p: int| occurs_at(diff, line, p);
        lemma_large_number_in_part(diff, line, p);
    }
}

/// The detail given when a hunk range's start plus length overflows.
pub const HUNK_RANGE_TOO_LARGE: &'static str = "hunk range too large";

fn range_fits_exec(r: &str) -> (res: bool)
    ensures
        res == range_fits(r@),
{
    let max: u64 = usize::MAX as u64;
    match find_text(r, ",") {
        Some(c) => {
            proof {
                reveal_strlit(",");
            }
            let n = char_count(r);
            let a = parse_decimal(substring(r, 0, c).as_str(), max);
            let b = parse_decimal(substring(r, c + 1, n).as_str(), max);
            assert(r@.subrange(0, c as int) =~= r@.take(c as int));
            assert(r@.subrange(c + 1, r@.len() as int) =~= r@.skip(c + 1));
            match (a, b) {
                (Some(x), Some(y)) => (x as u128) + (y as u128) <= max as u128,
                _ => true,
            }
        },
        None => match parse_decimal(r, max) {
            Some(x) => (x as u128) + 1 <= max as u128,
            None => true,
        },
    }
}

fn after_sign(r: &str, sign: &str) -> (res: bool)
    requires
        sign@.len() == 1,
    ensures
        res == (!starts_with_text(r@, sign@) || range_fits(r@.skip(1))),
{
    if starts_with(r, sign) {
        let t = substring(r, 1, char_count(r));
        assert(t@ =~= r@.skip(1));
        range_fits_exec(t.as_str())
    } else {
        true
    }
}

fn header_fits_exec(line: &str) -> (res: bool)
    requires
        line@.len() >= 3,
    ensures
        res == header_fits(line@),
{
    let rest = substring(line, 3, char_count(line));
    assert(rest@ =~= line@.skip(3));
    match find_text(rest.as_str(), " @@") {
        None => true,
        Some(i) => {
            proof {
                reveal_strlit(" @@");
            }
            let ranges = substring(rest.as_str(), 0, i);
            assert(ranges@ =~= rest@.take(i as int));
            match find_text(ranges.as_str(), " ") {
                None => true,
                Some(j) => {
                    proof {
                        reveal_strlit(" ");
                        reveal_strlit("-");
                        reveal_strlit("+");
                    }
                    let r1 = substring(ranges.as_str(), 0, j);
                    let r2 = substring(ranges.as_str(), j + 1, char_count(ranges.as_str()));
                    assert(r1@ =~= ranges@.take(j as int));
                    assert(r2@ =~= ranges@.skip(j + 1));
                    after_sign(r1.as_str(), "-") && after_sign(r2.as_str(), "+")
                },
            }
        },
    }
}

/// Whether every hunk header that another one follows has ranges that fit.
pub fn hunk_ranges_ok(diff: &str) -> (res: bool)
    ensures
        res == hunk_ranges_fit(diff@),
{
    let lines = split_lines(diff);
    let ghost ls = lines_of(diff@);
    proof {
        reveal_strlit("@@ ");
    }
    // Find the last hunk header.
    let mut last: Option<usize> = None;
    let mut i: usize = 0;
    while i < lines.len()
        invariant
            i <= lines.len(),
            lines.deep_view() == ls,
            ls == lines_of(diff@),
            match last {
                Some(l) => l < i && is_hunk_header(ls[l as int]) && forall|m: int|
                    l < m < i ==> !is_hunk_header(#[trigger] ls[m]),
                None => forall|m: int| 0 <= m < i ==> !is_hunk_header(#[trigger] ls[m]),
            },
        decreases lines.len() - i,
    {
        assert(lines.deep_view()[i as int] == lines[i as int]@);
        if starts_with(lines[i].as_str(), "@@ ") {
            last = Some(i);
        }
        i = i + 1;
    }
    let end = match last {
        Some(l) => l,
        None => 0,
    };
    let mut k: usize = 0;
    while k < end
        invariant
            k <= end,
            end <= lines.len(),
            lines.deep_view() == ls,
            ls == lines_of(diff@),
            match last {
                Some(l) => l == end && l < lines.len() && is_hunk_header(ls[l as int]) && forall|m: int|
                    l < m < lines.len() ==> !is_hunk_header(#[trigger] ls[m]),
                None => end == 0 && forall|m: int| 0 <= m < lines.len() ==> !is_hunk_header(#[trigger] ls[m]),
            },
            forall|a: int| 0 <= a < k && is_hunk_header(#[trigger] ls[a]) ==> header_fits(ls[a]),
        decreases end - k,
    {
        assert(lines.deep_view()[k as int] == lines[k as int]@);
        proof {
            reveal_strlit("@@ ");
        }
        if starts_with(lines[k].as_str(), "@@ ") && !header_fits_exec(lines[k].as_str()) {
            assert(is_hunk_header(ls[end as int]));
            assert(!hunk_ranges_fit(diff@));
            return false;
        }
        k = k + 1;
    }
    assert forall|a: int, m: int|
        0 <= a < m < ls.len() && is_hunk_header(#[trigger] ls[a]) && is_hunk_header(#[trigger] ls[m])
        implies header_fits(ls[a]) by {
        assert(a < end);
    }
    true
}

/// What `diffy::Patch::from_str` gives for a text: the number of hunks of
/// the parsed patch, or the parse error's message.
pub uninterp spec fn diffy_parsed_hunks(text: Seq<char>) -> Result<nat, Seq<char>>;

/// Calls `diffy::Patch::from_str` and counts the hunks with `hunks`; the
/// result is named `diffy_parsed_hunks` of the text. `from_str` adds the
/// start and the length of each hunk but the last unchecked (an overflow
/// panics in a debug build); the `requires` keeps those sums within `usize`.
#[verifier::external_body]
pub fn parse_hunk_count(text: &str) -> (res: Result<usize, String>)
    requires
        hunk_ranges_fit(text@),
    ensures
        match res {
            Ok(n) => diffy_parsed_hunks(text@) == Ok::<nat, Seq<char>>(n as nat),
            Err(e) => diffy_parsed_hunks(text@) == Err::<nat, Seq<char>>(e@),
        },
{
    match diffy::Patch::from_str(text) {
        Ok(p) => Ok(p.hunks().len()),
        Err(e) => Err(e.to_string()),
    }
}

/// What `diffy::apply` gives for a base text and the patch parsed from a
/// diff text: the patched text, or the error's message.
pub uninterp spec fn diffy_applied(base: Seq<char>, diff: Seq<char>) -> Result<Seq<char>, Seq<char>>;

/// Parses the diff with `diffy::Patch::from_str` and calls `diffy::apply`;
/// the result is named `diffy_applied` of the base and the diff. The
/// `requires` rules out the hunk ranges on which `from_str` overflows.
#[verifier::external_body]
pub fn apply_diff(base: &str, diff: &str) -> (res: Result<String, String>)
    requires
        hunk_ranges_fit(diff@),
    ensures
        match res {
            Ok(t) => diffy_applied(base@, diff@) == Ok::<Seq<char>, Seq<char>>(t@),
            Err(e) => diffy_applied(base@, diff@) == Err::<Seq<char>, Seq<char>>(e@),
        },
{
    let patch = match diffy::Patch::from_str(diff) {
        Ok(p) => p,
        Err(e) => return Err(e.to_string()),
    };
    match diffy::apply(base, &patch) {
        Ok(t) => Ok(t),
        Err(e) => Err(e.to_string()),
    }
}

/// The patched content of a file: refused when a hunk range (of a hunk but
/// the last) overflows, when the diff does not parse or has no hunks, or
/// when a hunk does not fit; otherwise what applying the hunks gives.
pub open spec fn patched_model(original: Seq<char>, diff: Seq<char>) -> Result<Seq<char>, (PatchErrorKind, Seq<char>)> {
    if !hunk_ranges_fit(diff) {
        Err((PatchErrorKind::InvalidDiff, HUNK_RANGE_TOO_LARGE@))
    } else {
        match diffy_parsed_hunks(diff) {
            Err(e) => Err((PatchErrorKind::InvalidDiff, e)),
            Ok(n) => if n == 0 {
                Err((PatchErrorKind::NoHunks, seq![]))
            } else {
                match diffy_applied(original, diff) {
                    Ok(t) => Ok(t),
                    Err(e) => Err((PatchErrorKind::ApplyFailed, e)),
                }
            },
        }
    }
}

/// What the parse of a diff decides: a parse error refuses the patch, and so
/// does a patch without hunks.
pub open spec fn parse_model(parsed: Result<nat, Seq<char>>) -> Result<(), (PatchErrorKind, Seq<char>)> {
    match parsed {
        Err(e) => Err((PatchErrorKind::InvalidDiff, e)),
        Ok(n) => if n == 0 {
            Err((PatchErrorKind::NoHunks, seq![]))
        } else {
            Ok(())
        },
    }
}

/// Decides on the parse of a diff (its hunk count, or the parse error).
pub fn parse_outcome(parsed: Result<usize, String>) -> (res: Result<(), PatchError>)
    ensures
        match res {
            Ok(_) => parse_model(match parsed {
                Ok(n) => Ok(n as nat),
                Err(e) => Err(e@),
            }) is Ok,
            Err(e) => parse_model(match parsed {
                Ok(n) => Ok(n as nat),
                Err(e) => Err(e@),
            }) == Err::<(), (PatchErrorKind, Seq<char>)>(e@),
        },
{
    match parsed {
        Err(e) => Err(patch_error(PatchErrorKind::InvalidDiff, e.as_str())),
        Ok(n) => if n == 0 {
            Err(bare_error(PatchErrorKind::NoHunks))
        } else {
            Ok(())
        },
    }
}

/// Decides on the result of applying the hunks: a hunk that does not fit
/// refuses the patch.
pub fn apply_outcome(applied: Result<String, String>) -> (res: Result<String, PatchError>)
    ensures
        match applied {
            Ok(t) => res is Ok && res->Ok_0@ == t@,
            Err(e) => res is Err && res->Err_0@ == (PatchErrorKind::ApplyFailed, e@),
        },
{
    match applied {
        Ok(t) => Ok(t),
        Err(e) => Err(patch_error(PatchErrorKind::ApplyFailed, e.as_str())),
    }
}

/// Applies a unified diff to the original content, hunk by hunk. Nothing is
/// written here: a refused diff leaves the file as it was.
pub fn patched_content(original: &str, unified_diff: &str) -> (res: Result<String, PatchError>)
    ensures
        result_matches(res, patched_model(original@, unified_diff@)),
        // Only a diff with at least one hunk is ever applied.
        res is Ok ==> (diffy_parsed_hunks(unified_diff@) matches Ok(n) && n > 0),
        // With ranges that do not overflow, a diff that parses with hunks and
        // applies gives exactly the applied text.
        hunk_ranges_fit(unified_diff@) && (diffy_parsed_hunks(unified_diff@) matches Ok(n) && n > 0)
            && (diffy_applied(original@, unified_diff@) matches Ok(t)) ==> (res matches Ok(r) && r@
            == diffy_applied(original@, unified_diff@)->Ok_0),
        // In particular, a diff holding no number above half of `usize::MAX`
        // (any ordinary diff, with any number of hunks) that diffy parses with
        // hunks and applies gives exactly the applied text.
        !holds_large_number(unified_diff@) && (diffy_parsed_hunks(unified_diff@) matches Ok(n) && n > 0)
            && (diffy_applied(original@, unified_diff@) matches Ok(t)) ==> (res matches Ok(r) && r@
            == diffy_applied(original@, unified_diff@)->Ok_0),
{
    proof {
        lemma_small_numbers_pass(unified_diff@);
    }
    if !hunk_ranges_ok(unified_diff) {
        return Err(patch_error(PatchErrorKind::InvalidDiff, HUNK_RANGE_TOO_LARGE));
    }
    let parsed = parse_hunk_count(unified_diff);
    parse_outcome(parsed)?;
    apply_outcome(apply_diff(original, unified_diff))
}

/// Backup path for a target file: `<file>.jev-bak`.
pub fn backup_path_for(target: &str) -> (res: String)
    ensures
        res@ == target@ + ".jev-bak"@,
{
    let mut s = owned(target);
    push_text(&mut s, ".jev-bak");
    s
}

/// The directory holding the stored suggestion: `<root>/.jev`.
pub fn patch_store_dir(root: &str) -> (res: String)
    ensures
        res@ == path_joined(root@, ".jev"@),
{
    join_path(root, ".jev")
}

/// Storage location of the last patch suggestion: `<root>/.jev/last-patch.json`.
pub fn patch_store_path(root: &str) -> (res: String)
    ensures
        res@ == path_joined(path_joined(root@, ".jev"@), "last-patch.json"@),
{
    let dir = patch_store_dir(root);
    join_path(dir.as_str(), "last-patch.json")
}

/// Location of the human-readable copy of the last diff: `<root>/.jev/last-patch.diff`.
pub fn patch_diff_path(root: &str) -> (res: String)
    ensures
        res@ == path_joined(path_joined(root@, ".jev"@), "last-patch.diff"@),
{
    let dir = patch_store_dir(root);
    join_path(dir.as_str(), "last-patch.diff")
}

} // verus!
