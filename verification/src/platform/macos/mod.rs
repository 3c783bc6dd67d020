//! macOS detection (not implemented yet: no windows are classified).

use vstd::prelude::*;

use crate::platform::detect::Candidate;

verus! {

/// Scan for meetings on macOS; window enumeration is not implemented there,
/// so nothing is found.
pub fn detect_scan() -> (r: Vec<Candidate>)
    ensures
        r@.len() == 0,
{
    Vec::new()
}

} // verus!
