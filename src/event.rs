//! The transitions that the detector reports to consumers.
use vstd::prelude::*;

verus! {

/// A change of the microphone's activity.
#[derive(Debug, Clone, Copy, PartialEq, Eq, Structural)]
pub enum Event {
    /// Sound above the threshold began.
    Rising,
    /// The hold time ran out with no loud sample, or the stream resumed.
    Falling,
    /// The stream was paused; consumers treat it as a falling edge.
    Suspended,
}

} // verus!
