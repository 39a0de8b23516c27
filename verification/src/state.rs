//! The state shared by the app's commands: whether the user asked to cancel the running sync.
use std::sync::atomic::AtomicBool;
use std::sync::atomic::Ordering;
use vstd::prelude::*;

verus! {

/// The app's shared state.
pub struct AppState {
    /// Set when the user asks to cancel the running sync; cleared when a sync starts.
    pub cancel_sync: AtomicBool,
}

impl Default for AppState {
    /// No cancellation requested.
    fn default() -> Self {
        AppState { cancel_sync: AtomicBool::new(false) }
    }
}

impl AppState {
    /// Asks the running sync to stop.
    pub fn request_cancel(&self) {
        self.cancel_sync.store(true, Ordering::SeqCst);
    }

    /// Clears any earlier cancellation, as a new sync starts.
    pub fn clear_cancel(&self) {
        self.cancel_sync.store(false, Ordering::SeqCst);
    }

    /// Whether a cancellation has been asked for. Another thread may change the flag at any
    /// time, so nothing is claimed of the answer.
    pub fn is_cancelled(&self) -> bool {
        self.cancel_sync.load(Ordering::SeqCst)
    }
}

} // verus!
