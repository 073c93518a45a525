//! The raw-event model: the fields of a device event that the pipeline
//! reads, and their classification into motion, synchronization marker,
//! or passthrough.

use vstd::prelude::*;

verus! {

/// Event type code for synchronization events.
pub const EV_SYN: u16 = 0;

/// Event type code for relative-axis motion events.
pub const EV_REL: u16 = 2;

/// Axis code for horizontal relative motion.
pub const REL_X: u16 = 0;

/// Axis code for vertical relative motion.
pub const REL_Y: u16 = 1;

/// Code of the synchronization marker that closes a frame.
pub const SYN_REPORT: u16 = 0;

/// One raw input event: the type code, the event code within that type,
/// and the signed value. This is exactly what the pipeline reads of a
/// device event; everything else rides along outside the library.
#[derive(Clone, Copy, PartialEq, Eq, Structural, Debug)]
pub struct RawEvent {
    pub event_type: u16,
    pub code: u16,
    pub value: i32,
}

/// How the accumulator treats one event.
#[derive(Clone, Copy, PartialEq, Eq, Structural, Debug)]
pub enum EventClass {
    /// Horizontal relative motion: consumed into the frame's X sum.
    MotionX,
    /// Vertical relative motion: consumed into the frame's Y sum.
    MotionY,
    /// Synchronization marker: consumed, completes the frame.
    SyncMarker,
    /// Anything else: forwarded unchanged, in arrival order.
    Passthrough,
}

/// The classification rule: relative motion on the X or Y axis and the
/// frame-closing synchronization marker are consumed; every other event
/// (other relative axes, other synchronization codes, keys, ...) passes
/// through.
pub open spec fn class_of(ev: RawEvent) -> EventClass {
    if ev.event_type == EV_REL && ev.code == REL_X {
        EventClass::MotionX
    } else if ev.event_type == EV_REL && ev.code == REL_Y {
        EventClass::MotionY
    } else if ev.event_type == EV_SYN && ev.code == SYN_REPORT {
        EventClass::SyncMarker
    } else {
        EventClass::Passthrough
    }
}

impl RawEvent {
    /// Executable classification, proved to match `class_of`.
    pub fn classify(&self) -> (c: EventClass)
        ensures
            c == class_of(*self),
    {
        if self.event_type == EV_REL && self.code == REL_X {
            EventClass::MotionX
        } else if self.event_type == EV_REL && self.code == REL_Y {
            EventClass::MotionY
        } else if self.event_type == EV_SYN && self.code == SYN_REPORT {
            EventClass::SyncMarker
        } else {
            EventClass::Passthrough
        }
    }
}

} // verus!
