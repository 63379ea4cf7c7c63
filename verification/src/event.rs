//! Captured MIDI messages as owned values.

use vstd::prelude::*;
use vstd::slice::slice_to_vec;

verus! {

/// One captured MIDI message: the payload bytes exactly as the driver handed
/// them over, and the monotonic time of capture. Immutable once constructed.
#[derive(Debug)]
pub struct MidiEvent {
    /// The message bytes, copied out of the driver's transient buffer.
    pub payload: Vec<u8>,
    /// Monotonic arrival time reported by the driver.
    pub timestamp: u64,
}

/// The capture callback's conversion step: copy the driver's transient buffer
/// into an owned event. The driver's buffer must not be retained, so the
/// payload is a byte-for-byte copy.
pub fn capture_event(timestamp: u64, message: &[u8]) -> (e: MidiEvent)
    ensures
        e.payload@ == message@,
        e.timestamp == timestamp,
{
    MidiEvent { payload: slice_to_vec(message), timestamp }
}

} // verus!
