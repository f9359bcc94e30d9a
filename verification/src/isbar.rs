//! The renderer contract: the minimal interface any progress indicator must
//! offer so the manager can track, repaint, and finalize it.

use crate::bars::common::TermSizeError;
use crate::bars::common::TermWidthError;
use vstd::prelude::*;

verus! {

/// How a finished indicator leaves the screen.
#[derive(Clone, Copy, Debug, PartialEq, Eq, Structural)]
pub enum BarCloseMethod {
    /// Print the bar one last time, then cease tracking it.
    LeaveBehind,
    /// Cease tracking the bar without printing it again, clearing it from the
    /// screen on the next redraw.
    Clear,
}

/// Why an indicator could not produce its line.
#[derive(Clone, Copy, Debug, PartialEq, Eq, Structural)]
pub enum BarDisplayError {
    /// The terminal width was needed and unavailable.
    Width(TermWidthError),
    /// The terminal is too narrow for the indicator's layout.
    Size(TermSizeError),
}

impl BarDisplayError {
    /// A human-readable description of the failure.
    pub fn message(&self) -> (r: &'static str)
        ensures
            self matches BarDisplayError::Width(_) ==> r@ == "failed to get terminal width"@,
            self matches BarDisplayError::Size(_) ==> r@ == "terminal too small for bar to fit"@,
    {
        match self {
            BarDisplayError::Width(e) => e.message(),
            BarDisplayError::Size(e) => e.message(),
        }
    }
}

/// The capability set of a progress indicator.
///
/// The manager relies on three guarantees stated here: `done` is idempotent
/// and permanent for a finished indicator, rendering never flips the finished
/// flag or the close method, and a rendered line never holds a line break, so
/// every live indicator occupies exactly one terminal line.
pub trait IsBar: Sized {
    /// Whether the indicator has been marked finished.
    spec fn done_spec(&self) -> bool;

    /// The close method the indicator asks for; `None` defers to the
    /// manager's configured default.
    spec fn close_spec(&self) -> Option<BarCloseMethod>;

    /// Marks the indicator finished, allowing the manager to finalize and
    /// drop it according to its close method.  Calling it on a finished
    /// indicator changes nothing.
    fn done(&mut self)
        ensures
            final(self).done_spec(),
            final(self).close_spec() == old(self).close_spec(),
            old(self).done_spec() ==> *final(self) == *old(self),
    ;

    /// Whether `done` has been called.
    fn is_done(&self) -> (r: bool)
        ensures
            r == self.done_spec(),
    ;

    /// Renames the job the indicator stands for.
    fn set_name(&mut self, name: String)
        ensures
            final(self).done_spec() == old(self).done_spec(),
            final(self).close_spec() == old(self).close_spec(),
    ;

    /// Produces the indicator's current one-line representation.  May observe
    /// the terminal or the clock, and may advance animation state, but leaves
    /// the finished flag and the close method as they were.
    fn display(&mut self) -> (r: Result<String, BarDisplayError>)
        ensures
            final(self).done_spec() == old(self).done_spec(),
            final(self).close_spec() == old(self).close_spec(),
            r matches Ok(s) ==> crate::utils::line_clean(s@),
    ;

    /// How the manager should treat the indicator once it is finished.
    fn close_method(&self) -> (r: Option<BarCloseMethod>)
        ensures
            r == self.close_spec(),
    ;
}

} // verus!
