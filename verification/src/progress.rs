//! The progress/cancellation protocol of a long-running analysis: a
//! shared cancellation flag polled cooperatively by the run, and the
//! coalescing rule that bounds progress event volume on large batches.

use vstd::prelude::*;
use std::sync::atomic::AtomicBool;
use std::sync::atomic::Ordering;

verus! {

/// Progress events are coalesced to one per this many completed items
/// (plus one at the very end).
pub const PROGRESS_BATCH: u32 = 5;

/// Whether a progress event is due after `current` of `total` items have
/// completed: on every multiple of the batch size and on the final item.
pub open spec fn spec_should_emit(current: u32, total: u32) -> bool {
    current % PROGRESS_BATCH == 0 || current == total
}

/// Decides whether a coalesced progress event is due.
pub fn should_emit_progress(current: u32, total: u32) -> (r: bool)
    ensures
        r == spec_should_emit(current, total),
{
    current % PROGRESS_BATCH == 0 || current == total
}

/// A cancellation token shared between a running analysis and the caller
/// that may cancel it. The flag is set and read atomically; a reader
/// learns only the momentary value, since another thread may flip it at
/// any time. It is reset at the start of every run, so a cancelled run
/// leaves later runs unaffected.
pub struct CancelFlag {
    flag: AtomicBool,
}

impl CancelFlag {
    /// A fresh token, not yet cancelled.
    pub fn new() -> CancelFlag {
        CancelFlag { flag: AtomicBool::new(false) }
    }

    /// Requests cancellation of the run polling this token.
    pub fn cancel(&self) {
        self.flag.store(true, Ordering::SeqCst);
    }

    /// Clears the token at the start of a fresh run.
    pub fn reset(&self) {
        self.flag.store(false, Ordering::SeqCst);
    }

    /// Polls the token. The result is the momentary value of the shared
    /// flag; no more can be promised of it.
    pub fn is_cancelled(&self) -> bool {
        self.flag.load(Ordering::SeqCst)
    }
}

} // verus!
