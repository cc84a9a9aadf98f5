//! The context gathered around an error before a patch is requested.
use vstd::prelude::*;

pub mod collector;
pub mod project;

verus! {

/// Context gathered for the patch provider.
#[derive(Debug, Clone)]
pub struct ProjectContext {
    /// Project kind such as "cargo", "npm" or "python-poetry".
    pub project_kind: Option<String>,
    /// Uncommitted changes, truncated.
    pub relevant_diff: Option<String>,
    /// (path, content) slices of the files the error points at.
    pub relevant_file_snippets: Vec<(String, String)>,
}

/// The mathematical content of a context.
pub type ContextView = (Option<Seq<char>>, Option<Seq<char>>, Seq<(Seq<char>, Seq<char>)>);

impl View for ProjectContext {
    type V = ContextView;

    open spec fn view(&self) -> ContextView {
        (self.project_kind.deep_view(), self.relevant_diff.deep_view(), self.relevant_file_snippets.deep_view())
    }
}

impl Default for ProjectContext {
    fn default() -> (res: Self)
        ensures
            res@ == (None::<Seq<char>>, None::<Seq<char>>, Seq::<(Seq<char>, Seq<char>)>::empty()),
    {
        let res = ProjectContext { project_kind: None, relevant_diff: None, relevant_file_snippets: Vec::new() };
        assert(res.relevant_file_snippets.deep_view() =~= Seq::<(Seq<char>, Seq<char>)>::empty());
        res
    }
}

} // verus!
