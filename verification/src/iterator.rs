//! Driving an indicator from an iteration: a tracker that counts handled
//! items and feeds the count, together with a size hint, into a progress
//! indicator through its handle.

use crate::subsets::IteratorProgress;
use crate::wrapper::BarUnavailableError;
use crate::wrapper::IsBarWrapper;
use vstd::prelude::*;

verus! {

/// The size hint fed to the indicator for one step: the manual hint when
/// one was set, else the item count plus the larger bound of the
/// iteration's own size hint, saturating at the machine limit.
pub open spec fn hint_of(manual: Option<usize>, items: nat, lower: nat, upper: Option<usize>) -> nat {
    match manual {
        Some(h) => h as nat,
        None => {
            let u = match upper {
                Some(u) => u as nat,
                None => 0,
            };
            let m = if lower > u {
                lower
            } else {
                u
            };
            if items + m > usize::MAX {
                usize::MAX as nat
            } else {
                items + m
            }
        },
    }
}

/// Tracks an iteration's progress on behalf of an indicator handle.
pub struct ProgressTracker<W: IsBarWrapper> {
    items_count: usize,
    manual_hint: Option<usize>,
    bar: W,
}

impl<W: IsBarWrapper> ProgressTracker<W> {
    /// The number of items counted so far.
    pub closed spec fn items_spec(&self) -> nat {
        self.items_count as nat
    }

    /// The manual size hint, when one was set.
    pub closed spec fn manual_hint_spec(&self) -> Option<usize> {
        self.manual_hint
    }

    /// Takes over the handle of the indicator that will show the
    /// iteration's progress.
    pub fn new(bar: W) -> (t: ProgressTracker<W>)
        ensures
            t.items_spec() == 0,
            t.manual_hint_spec() is None,
    {
        ProgressTracker { items_count: 0, manual_hint: None, bar }
    }

    /// The number of items counted so far.
    pub fn items(&self) -> (n: usize)
        ensures
            n as nat == self.items_spec(),
    {
        self.items_count
    }

    /// Applies a manual size hint, overriding the iteration's own, to mend
    /// indicators driven by iterators with a poor size hint.
    pub fn manual_hint(&mut self, hint: usize)
        ensures
            final(self).manual_hint_spec() == Some(hint),
            final(self).items_spec() == old(self).items_spec(),
    {
        self.manual_hint = Some(hint);
    }

    /// Records one step of the iteration: pushes the current item count and
    /// the computed size hint into the indicator, then counts the yielded
    /// item.  Returns the hint that was fed.
    pub fn observe(&mut self, lower: usize, upper: Option<usize>, has_item: bool) -> (r: Result<
        usize,
        BarUnavailableError,
    >)
        where W::Bar: IteratorProgress,
        requires
            old(self).items_spec() < usize::MAX,
        ensures
            final(self).manual_hint_spec() == old(self).manual_hint_spec(),
            r matches Ok(h) ==> {
                &&& h as nat == hint_of(
                    old(self).manual_hint_spec(),
                    old(self).items_spec(),
                    lower as nat,
                    upper,
                )
                &&& final(self).items_spec() == old(self).items_spec() + (if has_item {
                    1 as nat
                } else {
                    0 as nat
                })
            },
            r matches Err(_) ==> final(self).items_spec() == old(self).items_spec(),
    {
        match self.bar.try_take_bar() {
            Ok(mut b) => {
                b.set_progress(self.items_count);
                let hint = match self.manual_hint {
                    Some(h) => h,
                    None => {
                        let u = match upper {
                            Some(u) => u,
                            None => 0,
                        };
                        let m = if lower > u {
                            lower
                        } else {
                            u
                        };
                        self.items_count.saturating_add(m)
                    },
                };
                b.set_size_hint(hint);
                self.bar.put_bar(b);
                if has_item {
                    self.items_count = self.items_count + 1;
                }
                Ok(hint)
            },
            Err(e) => Err(e),
        }
    }
}

} // verus!
