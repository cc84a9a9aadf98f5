//! The wrapped-shell session: what it captures and how it decides when to
//! run the patch pipeline.
use vstd::prelude::*;

pub mod interceptor;

verus! {

/// Raw output captured from the terminal before analysis.
#[derive(Debug, Clone)]
pub struct RawOutput {
    pub stdout: String,
    pub stderr: String,
    pub exit_code: Option<i32>,
    pub command: String,
}

} // verus!
