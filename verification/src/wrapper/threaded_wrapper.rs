//! The thread-safe handle: shared ownership through a mutex-guarded cell, so
//! an indicator can be updated from a worker thread while the owning thread
//! redraws.

use crate::cells::SharedBar;
use crate::isbar::IsBar;
use crate::subsets::IteratorProgress;
use crate::wrapper::BarUnavailableError;
use crate::wrapper::IsBarWrapper;
use vstd::prelude::*;

verus! {

/// A handle to an indicator that is also tracked by the manager, usable
/// across threads.  Taking the indicator blocks until the cell's lock is
/// free; taking it twice from one thread without putting it back first
/// deadlocks, which is a documented caller obligation.
///
/// Dropping a handle leaves the indicator as it is: call
/// [`IsBarWrapper::done`] to finish it, or wrap the handle in a
/// finalize-on-drop guard where automatic finalization is wanted.
#[verifier::reject_recursive_types(B)]
pub struct ThreadedBarWrapper<B: IsBar> {
    cell: SharedBar<B>,
}

impl<B: IsBar> ThreadedBarWrapper<B> {
    /// Wraps a cell that the manager keeps a handle to as well.
    pub(crate) fn attach(cell: SharedBar<B>) -> (w: ThreadedBarWrapper<B>) {
        ThreadedBarWrapper { cell }
    }

    /// Another handle to the same indicator.
    pub fn share(&self) -> (w: ThreadedBarWrapper<B>) {
        ThreadedBarWrapper { cell: self.cell.share() }
    }

    /// Sets the progress level of the indicator.
    pub fn set_progress(&self, progress: usize) -> (r: Result<(), BarUnavailableError>)
        where B: IteratorProgress,
    {
        match self.cell.take_blocking() {
            Some(mut b) => {
                b.set_progress(progress);
                self.cell.put(b);
                Ok(())
            },
            None => Err(BarUnavailableError),
        }
    }

    /// Renames the job the indicator stands for.
    pub fn set_name(&self, job_name: String) -> (r: Result<(), BarUnavailableError>) {
        match self.cell.take_blocking() {
            Some(mut b) => {
                b.set_name(job_name);
                self.cell.put(b);
                Ok(())
            },
            None => Err(BarUnavailableError),
        }
    }
}

impl<B: IsBar> IsBarWrapper for ThreadedBarWrapper<B> {
    type Bar = B;

    fn try_take_bar(&self) -> (r: Result<B, BarUnavailableError>) {
        match self.cell.take_blocking() {
            Some(b) => Ok(b),
            None => Err(BarUnavailableError),
        }
    }

    fn put_bar(&self, bar: B) {
        self.cell.put(bar);
    }

    /// Marks the indicator finished; idempotent, and a best-effort action
    /// when the indicator cannot be reached.
    fn done(&self) -> (r: Result<(), BarUnavailableError>) {
        match self.cell.take_blocking() {
            Some(mut b) => {
                b.done();
                self.cell.put(b);
                Ok(())
            },
            None => Err(BarUnavailableError),
        }
    }
}

} // verus!
