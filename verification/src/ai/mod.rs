//! Patch suggestions and the providers that produce them.
use vstd::prelude::*;

pub mod client;

verus! {

/// A proposed fix for one file.
#[derive(Debug, Clone)]
pub struct PatchSuggestion {
    pub file_path: String,
    /// Proposed diff in unified diff format.
    pub unified_diff: String,
    pub explanation: String,
}

impl View for PatchSuggestion {
    type V = (Seq<char>, Seq<char>, Seq<char>);

    open spec fn view(&self) -> (Seq<char>, Seq<char>, Seq<char>) {
        (self.file_path@, self.unified_diff@, self.explanation@)
    }
}

} // verus!
