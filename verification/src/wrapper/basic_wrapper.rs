//! The single-threaded handle: shared ownership through a reference-counted
//! cell with runtime-checked exclusive access.

use crate::cells::CellBar;
use crate::cells::TakeOutcome;
use crate::isbar::IsBar;
use crate::subsets::IteratorProgress;
use crate::wrapper::BarUnavailableError;
use crate::wrapper::IsBarWrapper;
use vstd::prelude::*;

verus! {

/// A handle to an indicator that is also tracked by the manager.  All
/// handles to one indicator alias the same cell, so updates through any of
/// them reach the next redraw.
///
/// Dropping a handle leaves the indicator as it is: call
/// [`IsBarWrapper::done`] to finish it, or wrap the handle in a
/// finalize-on-drop guard where automatic finalization is wanted.
#[verifier::reject_recursive_types(B)]
pub struct BarWrapper<B: IsBar> {
    cell: CellBar<B>,
}

impl<B: IsBar> BarWrapper<B> {
    /// Wraps a cell that the manager keeps a handle to as well.
    pub(crate) fn attach(cell: CellBar<B>) -> (w: BarWrapper<B>) {
        BarWrapper { cell }
    }

    /// Another handle to the same indicator.
    pub fn share(&self) -> (w: BarWrapper<B>) {
        BarWrapper { cell: self.cell.share() }
    }

    /// Sets the progress level of the indicator.
    pub fn set_progress(&self, progress: usize) -> (r: Result<(), BarUnavailableError>)
        where B: IteratorProgress,
    {
        match self.cell.try_take() {
            TakeOutcome::Taken(mut b) => {
                b.set_progress(progress);
                self.cell.put(b);
                Ok(())
            },
            _ => Err(BarUnavailableError),
        }
    }

    /// Renames the job the indicator stands for.
    pub fn set_name(&self, job_name: String) -> (r: Result<(), BarUnavailableError>) {
        match self.cell.try_take() {
            TakeOutcome::Taken(mut b) => {
                b.set_name(job_name);
                self.cell.put(b);
                Ok(())
            },
            _ => Err(BarUnavailableError),
        }
    }
}

impl<B: IsBar> IsBarWrapper for BarWrapper<B> {
    type Bar = B;

    fn try_take_bar(&self) -> (r: Result<B, BarUnavailableError>) {
        match self.cell.try_take() {
            TakeOutcome::Taken(b) => Ok(b),
            _ => Err(BarUnavailableError),
        }
    }

    fn put_bar(&self, bar: B) {
        self.cell.put(bar);
    }

    /// Marks the indicator finished; idempotent, and a best-effort action
    /// when the indicator cannot be reached.
    fn done(&self) -> (r: Result<(), BarUnavailableError>) {
        match self.cell.try_take() {
            TakeOutcome::Taken(mut b) => {
                b.done();
                self.cell.put(b);
                Ok(())
            },
            _ => Err(BarUnavailableError),
        }
    }
}

} // verus!
