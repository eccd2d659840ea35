//! Capabilities that a timer reports about timestamps.

use vstd::prelude::*;

verus! {

/// Whether a timer can report a wall-clock timestamp.
#[derive(Clone, Copy, Debug, PartialEq, Eq)]
pub enum TimerConstTimeStampInfo {
    Supported,
    NeedInit,
    NotSupported,
}

} // verus!
