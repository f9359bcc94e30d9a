//! Shared storage cells for indicators.
//!
//! A registered indicator lives in a cell that both the manager and the
//! user-facing wrapper hold.  Exclusive access follows a take/put protocol:
//! the indicator is moved out of the cell, worked on as an owned value in
//! verified code, and moved back.  Verus is told nothing about which value a
//! take yields — another handle to the same cell may have replaced it — so
//! everything proved about the surrounding logic holds for every value that
//! can come out.

use parking_lot::Mutex;
use std::cell::RefCell;
use std::rc::Rc;
use std::sync::Arc;
use std::time::Duration;
use vstd::prelude::*;

verus! {

/// What came of an attempt to take an indicator out of its cell.
pub enum TakeOutcome<B> {
    /// The indicator, now owned by the caller, who should put it back.
    Taken(B),
    /// Another holder has currently taken the indicator out.
    Gone,
    /// The cell's lock could not be acquired within the bounded wait.
    TimedOut,
}

/// A single-threaded shared cell holding one indicator.
///
/// Relies on `std::rc::Rc` and `std::cell::RefCell` for shared ownership
/// with runtime-checked exclusive access.
#[verifier::external_body]
#[verifier::reject_recursive_types(B)]
pub struct CellBar<B> {
    cell: Rc<RefCell<Option<B>>>,
}

impl<B> CellBar<B> {
    /// Relies on `Rc::new` and `RefCell::new`: wraps the indicator in a
    /// fresh cell.
    #[verifier::external_body]
    pub fn new(bar: B) -> (c: CellBar<B>) {
        CellBar { cell: Rc::new(RefCell::new(Some(bar))) }
    }

    /// Relies on `Rc::clone`: another handle to the same cell.
    #[verifier::external_body]
    pub fn share(&self) -> (c: CellBar<B>) {
        CellBar { cell: Rc::clone(&self.cell) }
    }

    /// Relies on `RefCell::try_borrow_mut` and `Option::take`: moves the
    /// indicator out of the cell when it is present and not borrowed.
    #[verifier::external_body]
    pub fn try_take(&self) -> (r: TakeOutcome<B>) {
        match self.cell.try_borrow_mut() {
            Ok(mut slot) => match slot.take() {
                Some(b) => TakeOutcome::Taken(b),
                None => TakeOutcome::Gone,
            },
            Err(_) => TakeOutcome::Gone,
        }
    }

    /// Relies on `RefCell::try_borrow_mut`: moves an indicator back into
    /// the cell.  If the cell is unexpectedly borrowed the indicator is
    /// discarded rather than panicking.
    #[verifier::external_body]
    pub fn put(&self, bar: B) {
        if let Ok(mut slot) = self.cell.try_borrow_mut() {
            *slot = Some(bar);
        }
    }
}

/// A thread-safe shared cell holding one indicator.
///
/// Relies on `std::sync::Arc` and `parking_lot::Mutex` for shared ownership
/// across threads with mutual exclusion.
#[verifier::external_body]
#[verifier::reject_recursive_types(B)]
pub struct SharedBar<B> {
    cell: Arc<Mutex<Option<B>>>,
}

impl<B> SharedBar<B> {
    /// Relies on `Arc::new` and `parking_lot::Mutex::new`: wraps the
    /// indicator in a fresh cell.
    #[verifier::external_body]
    pub fn new(bar: B) -> (c: SharedBar<B>) {
        SharedBar { cell: Arc::new(Mutex::new(Some(bar))) }
    }

    /// Relies on `Arc::clone`: another handle to the same cell.
    #[verifier::external_body]
    pub fn share(&self) -> (c: SharedBar<B>) {
        SharedBar { cell: Arc::clone(&self.cell) }
    }

    /// Relies on `parking_lot`'s `Mutex::try_lock_for` and `Option::take`:
    /// moves the indicator out of the cell, waiting at most `timeout_ms`
    /// milliseconds for the lock.
    #[verifier::external_body]
    pub fn try_take_for(&self, timeout_ms: u64) -> (r: TakeOutcome<B>) {
        match self.cell.try_lock_for(Duration::from_millis(timeout_ms)) {
            Some(mut slot) => match slot.take() {
                Some(b) => TakeOutcome::Taken(b),
                None => TakeOutcome::Gone,
            },
            None => TakeOutcome::TimedOut,
        }
    }

    /// Relies on `parking_lot`'s `Mutex::lock` and `Option::take`: moves
    /// the indicator out of the cell, blocking until the lock is free.
    #[verifier::external_body]
    pub fn take_blocking(&self) -> (r: Option<B>) {
        self.cell.lock().take()
    }

    /// Relies on `parking_lot`'s `Mutex::lock`: moves an indicator back
    /// into the cell, blocking until the lock is free.
    #[verifier::external_body]
    pub fn put(&self, bar: B) {
        *self.cell.lock() = Some(bar);
    }
}

} // verus!
