//! Traits for subsets of progress indicators that extend the renderer
//! contract with more specific update methods.

use vstd::prelude::*;

verus! {

/// Update API used by the iterator-driven progress adaptor.
pub trait IteratorProgress {
    /// Sets the current progress: the number of items handled so far.
    fn set_progress(&mut self, progress: usize);

    /// Sets a hint for the largest value `set_progress` will ever receive.
    fn set_size_hint(&mut self, max: usize);
}

} // verus!
