//! Aggregate statistics over the canonical event stream, owned by the
//! dispatch step and updated synchronously once per tick.

use vstd::prelude::*;

use crate::events::{EventV, GameEvent};

verus! {

/// Mathematical model of the statistics.
pub ghost struct StatsV {
    pub hand_count_changed: int,
    pub hand_gesture: int,
    pub hand_pinch_distance: int,
    pub object_detected: int,
    pub last_event: Option<EventV>,
}

/// Counts of consumed events by kind, and the most recent event. Counters
/// saturate at `u32::MAX` rather than overflow.
#[derive(Debug)]
pub struct GameEventStats {
    pub hand_count_changed: u32,
    pub hand_gesture: u32,
    pub hand_pinch_distance: u32,
    pub object_detected: u32,
    pub last_event: Option<GameEvent>,
}

impl DeepView for GameEventStats {
    type V = StatsV;

    open spec fn deep_view(&self) -> StatsV {
        StatsV {
            hand_count_changed: self.hand_count_changed as int,
            hand_gesture: self.hand_gesture as int,
            hand_pinch_distance: self.hand_pinch_distance as int,
            object_detected: self.object_detected as int,
            last_event: match self.last_event {
                Some(e) => Some(e.deep_view()),
                None => None,
            },
        }
    }
}

/// A counter increment that saturates at `u32::MAX`.
pub open spec fn sat_inc(c: int) -> int {
    if c >= u32::MAX {
        c
    } else {
        c + 1
    }
}

/// The statistics after consuming one event: the event's own counter is
/// bumped and the event becomes the most recent one.
pub open spec fn spec_record(s: StatsV, e: EventV) -> StatsV {
    match e {
        EventV::HandCountChanged { .. } => StatsV {
            hand_count_changed: sat_inc(s.hand_count_changed),
            hand_gesture: s.hand_gesture,
            hand_pinch_distance: s.hand_pinch_distance,
            object_detected: s.object_detected,
            last_event: Some(e),
        },
        EventV::HandGesture { .. } => StatsV {
            hand_count_changed: s.hand_count_changed,
            hand_gesture: sat_inc(s.hand_gesture),
            hand_pinch_distance: s.hand_pinch_distance,
            object_detected: s.object_detected,
            last_event: Some(e),
        },
        EventV::HandPinchDistance { .. } => StatsV {
            hand_count_changed: s.hand_count_changed,
            hand_gesture: s.hand_gesture,
            hand_pinch_distance: sat_inc(s.hand_pinch_distance),
            object_detected: s.object_detected,
            last_event: Some(e),
        },
        EventV::ObjectDetected { .. } => StatsV {
            hand_count_changed: s.hand_count_changed,
            hand_gesture: s.hand_gesture,
            hand_pinch_distance: s.hand_pinch_distance,
            object_detected: sat_inc(s.object_detected),
            last_event: Some(e),
        },
    }
}

/// The statistics after consuming a batch of events, in order.
pub open spec fn spec_record_all(s: StatsV, evs: Seq<EventV>) -> StatsV
    decreases evs.len(),
{
    if evs.len() == 0 {
        s
    } else {
        spec_record_all(spec_record(s, evs[0]), evs.drop_first())
    }
}

impl Default for GameEventStats {
    /// Fresh statistics: all counters zero, no event seen yet.
    fn default() -> (s: Self)
        ensures
            s.deep_view() == (StatsV {
                hand_count_changed: 0,
                hand_gesture: 0,
                hand_pinch_distance: 0,
                object_detected: 0,
                last_event: None::<EventV>,
            }),
    {
        GameEventStats {
            hand_count_changed: 0,
            hand_gesture: 0,
            hand_pinch_distance: 0,
            object_detected: 0,
            last_event: None,
        }
    }
}

impl GameEventStats {
    /// Consumes one event: bumps its counter (saturating) and remembers it
    /// as the most recent event.
    pub fn record(&mut self, e: GameEvent)
        ensures
            final(self).deep_view() == spec_record(old(self).deep_view(), e.deep_view()),
    {
        match &e {
            GameEvent::HandCountChanged(..) => {
                if self.hand_count_changed < u32::MAX {
                    self.hand_count_changed = self.hand_count_changed + 1;
                }
            },
            GameEvent::HandGesture { .. } => {
                if self.hand_gesture < u32::MAX {
                    self.hand_gesture = self.hand_gesture + 1;
                }
            },
            GameEvent::HandPinchDistance { .. } => {
                if self.hand_pinch_distance < u32::MAX {
                    self.hand_pinch_distance = self.hand_pinch_distance + 1;
                }
            },
            GameEvent::ObjectDetected { .. } => {
                if self.object_detected < u32::MAX {
                    self.object_detected = self.object_detected + 1;
                }
            },
        }
        self.last_event = Some(e);
    }

    /// Consumes a batch of events, in order.
    pub fn process_events(&mut self, evs: Vec<GameEvent>)
        ensures
            final(self).deep_view() == spec_record_all(old(self).deep_view(), evs.deep_view()),
    {
        let ghost all = evs.deep_view();
        let ghost s0 = self.deep_view();
        let mut rest = evs;
        while rest.len() > 0
            invariant
                spec_record_all(self.deep_view(), rest.deep_view()) == spec_record_all(s0, all),
            decreases rest.len(),
        {
            let ghost rest_pre = rest.deep_view();
            let e = rest.remove(0);
            proof {
                assert(rest.deep_view() =~= rest_pre.drop_first());
                assert(e.deep_view() == rest_pre[0]);
            }
            self.record(e);
        }
    }

    /// The total number of consumed events over all kinds.
    pub fn total(&self) -> (t: u64)
        ensures
            t == self.deep_view().hand_count_changed + self.deep_view().hand_gesture
                + self.deep_view().hand_pinch_distance + self.deep_view().object_detected,
    {
        (self.hand_count_changed as u64) + (self.hand_gesture as u64) + (self.hand_pinch_distance
            as u64) + (self.object_detected as u64)
    }

    /// Resets all counters to zero; the most recent event is kept.
    pub fn _reset(&mut self)
        ensures
            final(self).deep_view() == (StatsV {
                hand_count_changed: 0,
                hand_gesture: 0,
                hand_pinch_distance: 0,
                object_detected: 0,
                last_event: old(self).deep_view().last_event,
            }),
    {
        self.hand_count_changed = 0;
        self.hand_gesture = 0;
        self.hand_pinch_distance = 0;
        self.object_detected = 0;
    }
}

} // verus!
