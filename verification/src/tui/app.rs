//! The review state of the assistant.
use vstd::prelude::*;

use crate::ai::PatchSuggestion;

verus! {

/// Overall review state. When a suggestion is ready the state moves from
/// `Idle` to `ReviewingPatch`.
pub enum AppState {
    Idle,
    ReviewingPatch(PatchSuggestion),
    Applying,
    Done,
}

/// The review state holder.
pub struct App {
    pub state: AppState,
}

impl App {
    /// A new, idle app.
    pub fn new() -> (res: Self)
        ensures
            res.state is Idle,
    {
        App { state: AppState::Idle }
    }

    /// Starts reviewing a suggestion.
    pub fn show_patch(&mut self, patch: PatchSuggestion)
        ensures
            final(self).state == AppState::ReviewingPatch(patch),
    {
        self.state = AppState::ReviewingPatch(patch);
    }
}

impl Default for App {
    fn default() -> (res: Self)
        ensures
            res.state is Idle,
    {
        Self::new()
    }
}

} // verus!
