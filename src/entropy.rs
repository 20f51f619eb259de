//! Random bytes from the operating system.
use vstd::prelude::*;

verus! {

/// Relies on `rand::rngs::OsRng` through `Rng::try_fill`: `n` bytes drawn
/// from the operating system, or `None` when it has none to give (the
/// failure is returned, never raised).
#[verifier::external_body]
pub(crate) fn random_bytes(n: usize) -> (r: Option<Vec<u8>>)
    requires
        n <= 64,
    ensures
        r matches Some(b) ==> b@.len() == n,
{
    let mut b = vec![0u8; n];
    match rand::Rng::try_fill(&mut rand::rngs::OsRng, &mut b[..]) {
        Ok(()) => Some(b),
        Err(_) => None,
    }
}

} // verus!
