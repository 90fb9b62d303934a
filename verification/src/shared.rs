use crate::errors::ShellError;
use std::sync::atomic::AtomicBool;
use std::sync::Arc;
use vstd::prelude::*;

verus! {

/// A shared cancellation signal. Every handle cloned from one original
/// observes the same flag; long-running stream stages check it
/// cooperatively and behave as exhausted once it is set. Reading it says
/// nothing about what a later read gives: another thread owns the other
/// side.
#[derive(Debug)]
pub struct InterruptHandle {
    flag: Arc<AtomicBool>,
}

impl InterruptHandle {
    /// A fresh, unset signal.
    pub fn new() -> InterruptHandle {
        InterruptHandle { flag: Arc::new(AtomicBool::new(false)) }
    }

    /// A new handle to the same underlying flag.
    ///
    /// Relies on `Arc::clone`: the clone refers to the same allocation.
    #[verifier::external_body]
    pub fn share(&self) -> InterruptHandle {
        InterruptHandle { flag: Arc::clone(&self.flag) }
    }

    /// Reads the flag. The result is whatever the flag holds at this
    /// moment; no two reads are promised to agree.
    ///
    /// Relies on `AtomicBool::load`.
    #[verifier::external_body]
    pub fn is_set(&self) -> bool {
        self.flag.load(std::sync::atomic::Ordering::SeqCst)
    }

    /// Sets the flag, asking every observer to stop.
    ///
    /// Relies on `AtomicBool::store`.
    #[verifier::external_body]
    pub fn trigger(&self) {
        self.flag.store(true, std::sync::atomic::Ordering::SeqCst)
    }
}

// The shared, append-only error sink of an evaluation context. All handles
// cloned from one original append to the same list. Its content depends on
// every holder of a handle, so nothing is promised about what is read back.
#[verifier::external_body]
#[derive(Debug)]
pub struct ErrorSink {
    inner: Arc<parking_lot::Mutex<Vec<ShellError>>>,
}

impl ErrorSink {
    /// A fresh, empty sink.
    ///
    /// Relies on `parking_lot::Mutex::new`.
    #[verifier::external_body]
    pub fn new() -> ErrorSink {
        ErrorSink { inner: Arc::new(parking_lot::Mutex::new(Vec::new())) }
    }

    /// A new handle to the same underlying list.
    ///
    /// Relies on `Arc::clone`: the clone refers to the same allocation.
    #[verifier::external_body]
    pub fn share(&self) -> ErrorSink {
        ErrorSink { inner: Arc::clone(&self.inner) }
    }

    /// Appends one error.
    ///
    /// Relies on `parking_lot::Mutex::lock`: exclusive access for the
    /// duration of the push, without re-entrant locking.
    #[verifier::external_body]
    pub fn push(&self, e: ShellError) {
        self.inner.lock().push(e)
    }

    /// Empties the sink.
    ///
    /// Relies on `parking_lot::Mutex::lock`.
    #[verifier::external_body]
    pub fn clear(&self) {
        self.inner.lock().clear()
    }

    /// A snapshot of the accumulated errors at this moment.
    ///
    /// Relies on `parking_lot::Mutex::lock`; the snapshot copies each error.
    #[verifier::external_body]
    pub fn snapshot(&self) -> Vec<ShellError> {
        self.inner.lock().iter().map(|e| e.duplicate()).collect()
    }
}

} // verus!
