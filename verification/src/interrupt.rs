//! The flag by which a running test learns that it was asked to stop.

use std::sync::atomic::AtomicBool;
use std::sync::atomic::Ordering;
use std::sync::Arc;
use vstd::prelude::*;

verus! {

/// Reads the stop flag that the interrupt handler sets.
///
/// Another thread may set the flag at any moment, so nothing is known of
/// the value read: callers state what holds whatever comes back.
pub fn check_interruption(interrupted: &Arc<AtomicBool>) -> bool {
    let flag: &AtomicBool = &**interrupted;
    flag.load(Ordering::Relaxed)
}

} // verus!
