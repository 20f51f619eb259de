//! The bounded retry of the first connection to storage.
use vstd::prelude::*;

verus! {

/// How many failed attempts to connect are tolerated before giving up.
pub const MAX_FAILED_ATTEMPTS: u32 = 7;

/// How long to wait between two attempts, in seconds.
pub const RETRY_SECONDS: u64 = 3;

/// After `failed` attempts have failed in a row: the wait before the next
/// attempt, or `None` to give up and abort startup.
pub fn retry_delay(failed: u32) -> (r: Option<u64>)
    ensures
        failed < MAX_FAILED_ATTEMPTS ==> r == Some(RETRY_SECONDS),
        failed >= MAX_FAILED_ATTEMPTS ==> r is None,
{
    if failed < MAX_FAILED_ATTEMPTS {
        Some(RETRY_SECONDS)
    } else {
        None
    }
}

} // verus!
