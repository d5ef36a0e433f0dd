//! The canonical event model: the validated, transport-agnostic events that
//! the rest of the application consumes.

use vstd::prelude::*;

use crate::fbits::{finite32, R32};

verus! {

/// Mathematical model of a canonical event.
pub ghost enum EventV {
    HandCountChanged { count: int },
    HandGesture { hand_id: int, gesture: Seq<char> },
    HandPinchDistance { hand_id: int, distance: u32 },
    ObjectDetected { name: Seq<char>, x: u32, y: u32 },
}

/// A canonical application event. Pinch distances and object coordinates
/// are single-precision values carried as bit patterns ([`R32`]).
#[derive(Debug, Clone, PartialEq)]
pub enum GameEvent {
    HandCountChanged(i32),
    HandGesture { hand_id: i32, gesture: String },
    HandPinchDistance { hand_id: i32, distance: R32 },
    ObjectDetected { name: String, x: R32, y: R32 },
}

impl DeepView for GameEvent {
    type V = EventV;

    open spec fn deep_view(&self) -> EventV {
        match *self {
            GameEvent::HandCountChanged(count) => EventV::HandCountChanged { count: count as int },
            GameEvent::HandGesture { hand_id, gesture } => EventV::HandGesture {
                hand_id: hand_id as int,
                gesture: gesture@,
            },
            GameEvent::HandPinchDistance { hand_id, distance } => EventV::HandPinchDistance {
                hand_id: hand_id as int,
                distance: distance.bits,
            },
            GameEvent::ObjectDetected { name, x, y } => EventV::ObjectDetected {
                name: name@,
                x: x.bits,
                y: y.bits,
            },
        }
    }
}

/// The invariant every event on the canonical stream satisfies: hand ids
/// and counts are non-negative, pinch distances are finite, gesture and
/// object names are non-empty.
pub open spec fn event_wf(e: EventV) -> bool {
    match e {
        EventV::HandCountChanged { count } => count >= 0,
        EventV::HandGesture { hand_id, gesture } => hand_id >= 0 && gesture.len() > 0,
        EventV::HandPinchDistance { hand_id, distance } => hand_id >= 0 && finite32(distance),
        EventV::ObjectDetected { name, x: _, y: _ } => name.len() > 0,
    }
}

} // verus!
