//! Shared pieces of the detect → context → suggest → save pipeline.
use vstd::prelude::*;

use crate::ai::client::{key_selects_anthropic, uses_anthropic};

verus! {

/// Provider label shown to the user when the Anthropic key is set.
pub const ANTHROPIC_NAME: &'static str = "anthropic";

/// Provider label shown to the user when no key is set.
pub const MOCK_NAME: &'static str = "mock (ANTHROPIC_API_KEY not set)";

/// Human-readable provider label for the value of `ANTHROPIC_API_KEY`,
/// without building a client.
pub fn provider_name(api_key: Option<&str>) -> (res: &'static str)
    ensures
        res@ == if key_selects_anthropic(match api_key {
            Some(k) => Some(k@),
            None => None::<Seq<char>>,
        }) {
            ANTHROPIC_NAME@
        } else {
            MOCK_NAME@
        },
{
    if uses_anthropic(api_key) {
        ANTHROPIC_NAME
    } else {
        MOCK_NAME
    }
}

} // verus!
