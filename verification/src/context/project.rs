//! Project kind detection from marker files in the repository root.
use vstd::prelude::*;

use crate::text::text_eq;

verus! {

/// Number of marker files that identify a project kind.
pub const MARKER_COUNT: usize = 7;

/// The marker files in priority order, with the project kind each one names.
pub open spec fn project_marker(i: int) -> (&'static str, &'static str) {
    if i == 0 {
        ("Cargo.toml", "cargo")
    } else if i == 1 {
        ("package.json", "npm")
    } else if i == 2 {
        ("pyproject.toml", "python-poetry")
    } else if i == 3 {
        ("requirements.txt", "python-pip")
    } else if i == 4 {
        ("go.mod", "go")
    } else if i == 5 {
        ("pom.xml", "maven")
    } else {
        ("build.gradle", "gradle")
    }
}

/// The `i`-th marker file and the project kind it names.
pub fn marker(i: usize) -> (res: (&'static str, &'static str))
    requires
        i < MARKER_COUNT,
    ensures
        res == project_marker(i as int),
{
    match i {
        0 => ("Cargo.toml", "cargo"),
        1 => ("package.json", "npm"),
        2 => ("pyproject.toml", "python-poetry"),
        3 => ("requirements.txt", "python-pip"),
        4 => ("go.mod", "go"),
        5 => ("pom.xml", "maven"),
        _ => ("build.gradle", "gradle"),
    }
}

/// The kind named by the first marker (at or after `i`) whose file is present.
pub open spec fn first_present_kind(present: Seq<Seq<char>>, i: int) -> Option<&'static str>
    decreases MARKER_COUNT - i,
{
    if i < 0 || i >= MARKER_COUNT {
        None
    } else if present.contains(project_marker(i).0@) {
        Some(project_marker(i).1)
    } else {
        first_present_kind(present, i + 1)
    }
}

/// `k` is the kind named `name`.
pub open spec fn names_kind(k: Option<&'static str>, name: Seq<char>) -> bool {
    k matches Some(x) && x@ == name
}

/// The kind found for the files present, as each marker file names its own
/// kind, the earlier one in this order deciding: `Cargo.toml` is cargo,
/// `package.json` npm, `pyproject.toml` python-poetry, `requirements.txt`
/// python-pip, `go.mod` go, `pom.xml` maven and `build.gradle` gradle; with
/// none of them there is no kind.
pub open spec fn kind_of_markers(present: Seq<Seq<char>>, k: Option<&'static str>) -> bool {
    let cargo = present.contains("Cargo.toml"@);
    let npm = present.contains("package.json"@);
    let poetry = present.contains("pyproject.toml"@);
    let pip = present.contains("requirements.txt"@);
    let go = present.contains("go.mod"@);
    let maven = present.contains("pom.xml"@);
    let gradle = present.contains("build.gradle"@);
    &&& cargo ==> names_kind(k, "cargo"@)
    &&& !cargo && npm ==> names_kind(k, "npm"@)
    &&& !cargo && !npm && poetry ==> names_kind(k, "python-poetry"@)
    &&& !cargo && !npm && !poetry && pip ==> names_kind(k, "python-pip"@)
    &&& !cargo && !npm && !poetry && !pip && go ==> names_kind(k, "go"@)
    &&& !cargo && !npm && !poetry && !pip && !go && maven ==> names_kind(k, "maven"@)
    &&& !cargo && !npm && !poetry && !pip && !go && !maven && gradle ==> names_kind(k, "gradle"@)
    &&& !cargo && !npm && !poetry && !pip && !go && !maven && !gradle ==> k is None
}

/// Each marker file names its own kind (see `kind_of_markers`).
pub proof fn lemma_marker_kinds(present: Seq<Seq<char>>)
    ensures
        kind_of_markers(present, first_present_kind(present, 0)),
{
    reveal_with_fuel(first_present_kind, 8);
}

fn is_present(present: &Vec<String>, name: &str) -> (res: bool)
    ensures
        res == present.deep_view().contains(name@),
{
    let mut j: usize = 0;
    while j < present.len()
        invariant
            j <= present.len(),
            forall|k: int| 0 <= k < j ==> present.deep_view()[k] != name@,
        decreases present.len() - j,
    {
        if text_eq(present[j].as_str(), name) {
            assert(present.deep_view()[j as int] == name@);
            return true;
        }
        j = j + 1;
    }
    false
}

/// Detects the project kind from the names of the marker files present in
/// the root directory: the first marker in priority order that is present
/// decides.
pub fn detect_project_kind(present_files: &Vec<String>) -> (res: Option<&'static str>)
    ensures
        res == first_present_kind(present_files.deep_view(), 0),
        kind_of_markers(present_files.deep_view(), res),
{
    proof {
        lemma_marker_kinds(present_files.deep_view());
    }
    let mut i: usize = 0;
    while i < MARKER_COUNT
        invariant
            i <= MARKER_COUNT,
            first_present_kind(present_files.deep_view(), 0) == first_present_kind(present_files.deep_view(), i as int),
            kind_of_markers(present_files.deep_view(), first_present_kind(present_files.deep_view(), 0)),
        decreases MARKER_COUNT - i,
    {
        let (file, kind) = marker(i);
        if is_present(present_files, file) {
            return Some(kind);
        }
        i = i + 1;
    }
    None
}

} // verus!
