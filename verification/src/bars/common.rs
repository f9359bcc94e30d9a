//! Failures shared by the built-in indicator renderers.

use vstd::prelude::*;

verus! {

/// The terminal width could not be determined.
#[derive(Clone, Copy, Debug, PartialEq, Eq, Structural)]
pub struct TermWidthError;

/// The terminal is too narrow for the bar to fit.
#[derive(Clone, Copy, Debug, PartialEq, Eq, Structural)]
pub struct TermSizeError;

impl TermWidthError {
    /// A human-readable description of the failure.
    pub fn message(&self) -> (r: &'static str)
        ensures
            r@ == "failed to get terminal width"@,
    {
        "failed to get terminal width"
    }
}

impl TermSizeError {
    /// A human-readable description of the failure.
    pub fn message(&self) -> (r: &'static str)
        ensures
            r@ == "terminal too small for bar to fit"@,
    {
        "terminal too small for bar to fit"
    }
}

} // verus!
