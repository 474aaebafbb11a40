//! The event alphabet of the control loop. Two producer threads feed a
//! single consumer: one forwards key presses, one emits a tick on a fixed
//! interval; the consumer blocks between events and owns all mutable state.

use vstd::prelude::*;

verus! {

/// One message on the control loop's queue.
#[derive(Clone, Copy, Debug, PartialEq, Eq, Structural)]
pub enum Event<I> {
    /// A key press, as read by the input thread.
    Input(I),
    /// A tick from the fixed-interval timer thread.
    Tick,
}

} // verus!
