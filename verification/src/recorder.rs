//! The stand-alone single-source recorder's choice of input.

use vstd::prelude::*;

verus! {

/// Which source the stand-alone recorder captures.
#[derive(Debug, Clone, Copy, PartialEq, Eq, Structural)]
pub enum Source {
    Microphone,
    /// System output, captured through a loopback device.
    Speaker,
}

} // verus!
