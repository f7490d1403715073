//! Admission of new device connections.
use vstd::prelude::*;

verus! {

/// Whether another device may connect: the repository's device count (a
/// count that could not be read counts as zero) is below the limit.
pub fn accepts_connection(device_count: Option<usize>, max_connections: usize) -> (ok: bool)
    ensures
        ok == (match device_count {
            Some(n) => n < max_connections,
            None => 0 < max_connections,
        }),
{
    let current = match device_count {
        Some(n) => n,
        None => 0,
    };
    current < max_connections
}

} // verus!
