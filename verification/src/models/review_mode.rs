//! Review mode: whether each comment is saved at once or queued in memory.

use vstd::prelude::*;

verus! {

/// Review mode: immediate vs batched.
#[derive(Debug, Clone, Copy, PartialEq, Eq, Structural)]
pub enum ReviewMode {
    /// Each comment saves immediately to disk.
    Immediate,
    /// Comments queued in memory, atomic write on submit.
    Batched,
}

impl Default for ReviewMode {
    /// Reviews start in immediate mode.
    fn default() -> (r: Self)
        ensures
            r == ReviewMode::Immediate,
    {
        ReviewMode::Immediate
    }
}

} // verus!
