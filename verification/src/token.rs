//! The cancellation flag that one folder load shares with its workers and
//! its drawing loop.

use vstd::prelude::*;
use std::sync::atomic::{AtomicBool, Ordering};
use std::sync::Arc;

verus! {

/// A flag that starts lowered and can only be raised. Every copy of a token
/// reads and raises the same flag; nothing lowers it again.
pub struct CancellationToken {
    flag: Arc<AtomicBool>,
}

impl CancellationToken {
    /// A token whose flag is lowered.
    pub fn new() -> (token: Self) {
        CancellationToken { flag: Arc::new(AtomicBool::new(false)) }
    }

    /// Raises the flag.
    pub fn cancel(&self) {
        self.flag.store(true, Ordering::Relaxed);
    }

    /// Whether the flag was seen raised. Another thread may raise it at any
    /// moment, so `false` is only what was true a moment ago.
    pub fn is_cancelled(&self) -> (raised: bool) {
        self.flag.load(Ordering::Relaxed)
    }
}

impl Clone for CancellationToken {
    /// Another handle to the same flag.
    fn clone(&self) -> (token: Self)
        ensures
            token == *self,
    {
        CancellationToken { flag: self.flag.clone() }
    }
}

} // verus!
