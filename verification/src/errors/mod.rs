//! What a detector reports about an error it found in command output.
use vstd::prelude::*;

pub mod detector;

verus! {

/// The toolchain whose output produced an error.
#[derive(Debug, Clone, Copy, PartialEq, Eq, Structural)]
pub enum Toolchain {
    Rust,
    Node,
    Python,
    Go,
    Java,
    Unknown,
}

/// The name of a toolchain as it appears in reports and prompts.
pub fn toolchain_label(t: Toolchain) -> (res: &'static str)
    ensures
        res@ == toolchain_name(t),
{
    match t {
        Toolchain::Rust => "Rust",
        Toolchain::Node => "Node",
        Toolchain::Python => "Python",
        Toolchain::Go => "Go",
        Toolchain::Java => "Java",
        Toolchain::Unknown => "Unknown",
    }
}

pub open spec fn toolchain_name(t: Toolchain) -> Seq<char> {
    match t {
        Toolchain::Rust => "Rust"@,
        Toolchain::Node => "Node"@,
        Toolchain::Python => "Python"@,
        Toolchain::Go => "Go"@,
        Toolchain::Java => "Java"@,
        Toolchain::Unknown => "Unknown"@,
    }
}

/// An error found in captured output.
#[derive(Debug, Clone)]
pub struct ErrorFinding {
    pub toolchain: Toolchain,
    pub raw_snippet: String,
    /// File path reported by the compiler or test runner (if parseable).
    pub file_hint: Option<String>,
    /// Line number reported by the compiler or test runner (if parseable).
    pub line_hint: Option<u32>,
}

/// The mathematical content of a finding: toolchain, snippet, file and line.
pub type FindingView = (Toolchain, Seq<char>, Option<Seq<char>>, Option<u32>);

impl View for ErrorFinding {
    type V = FindingView;

    open spec fn view(&self) -> FindingView {
        (self.toolchain, self.raw_snippet@, self.file_hint.deep_view(), self.line_hint)
    }
}

} // verus!
