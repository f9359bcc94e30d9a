//! User-facing handles to registered indicators.
//!
//! A handle aliases the storage cell that the manager also holds, so calling
//! code can keep updating an indicator that the manager redraws.  Exclusive
//! access follows the take/put protocol of [`crate::cells`].

pub mod basic_wrapper;
pub mod threaded_wrapper;

use crate::isbar::IsBar;
use vstd::prelude::*;

pub use basic_wrapper::BarWrapper;
pub use threaded_wrapper::ThreadedBarWrapper;

verus! {

/// The indicator could not be reached: another holder currently has it out
/// of its cell.
#[derive(Clone, Copy, Debug, PartialEq, Eq, Structural)]
pub struct BarUnavailableError;

impl BarUnavailableError {
    /// A human-readable description of the failure.
    pub fn message(&self) -> (r: &'static str)
        ensures
            r@ == "indicator is currently unavailable"@,
    {
        "indicator is currently unavailable"
    }
}

/// Common API of the two handle kinds.
pub trait IsBarWrapper: Sized {
    /// The indicator type behind the handle.
    type Bar: IsBar;

    /// Takes exclusive ownership of the indicator out of the shared cell,
    /// for renderer-specific calls; the caller gives it back with
    /// [`IsBarWrapper::put_bar`].
    fn try_take_bar(&self) -> Result<Self::Bar, BarUnavailableError>;

    /// Moves the indicator back into the shared cell.
    fn put_bar(&self, bar: Self::Bar);

    /// Marks the indicator finished, so the manager finalizes it according
    /// to its close method.  A best-effort action: it reports, rather than
    /// panics, when the indicator cannot be reached.
    fn done(&self) -> Result<(), BarUnavailableError>;
}

} // verus!
