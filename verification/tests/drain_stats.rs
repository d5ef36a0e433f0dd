//! Tests of the channel drains and the event statistics.

use gesture_ingest::channel::{drain_osc_events, drain_ws_events};
use gesture_ingest::events::GameEvent;
use gesture_ingest::fbits::R32;
use gesture_ingest::osc::{OscArg, RawOscMessage};
use gesture_ingest::stats::GameEventStats;
use gesture_ingest::ws::{WsFrameData, WsHandData};

fn r32(x: f32) -> R32 {
    R32 { bits: x.to_bits() }
}

#[test]
fn drain_empty_channel_twice_yields_nothing() {
    // Draining an empty channel twice in a row produces zero events both
    // times: no phantom events, no crash.
    let (_tx, rx) = crossbeam_channel::unbounded::<RawOscMessage>();
    assert_eq!(drain_osc_events(&rx), vec![]);
    assert_eq!(drain_osc_events(&rx), vec![]);
}

#[test]
fn drain_empty_ws_channel_twice_yields_nothing() {
    let (_tx, rx) = crossbeam_channel::unbounded::<WsFrameData>();
    assert_eq!(drain_ws_events(&rx), vec![]);
    assert_eq!(drain_ws_events(&rx), vec![]);
}

#[test]
fn drain_osc_translates_in_fifo_order() {
    let (tx, rx) = crossbeam_channel::unbounded::<RawOscMessage>();
    tx.send(RawOscMessage { addr: "/hand/count".to_string(), args: vec![OscArg::Int(1)] })
        .unwrap();
    tx.send(RawOscMessage { addr: "/bogus".to_string(), args: vec![] }).unwrap();
    tx.send(RawOscMessage { addr: "/hand/count".to_string(), args: vec![OscArg::Int(2)] })
        .unwrap();
    let evs = drain_osc_events(&rx);
    assert_eq!(evs, vec![GameEvent::HandCountChanged(1), GameEvent::HandCountChanged(2)]);
    // The drain went to exhaustion: nothing is left for the next tick.
    assert_eq!(drain_osc_events(&rx), vec![]);
}

#[test]
fn drain_ws_translates_frames() {
    let (tx, rx) = crossbeam_channel::unbounded::<WsFrameData>();
    tx.send(WsFrameData {
        hand_count: Some(1),
        hands: vec![WsHandData { id: 0, pinch_distance: r32(0.5), gesture: "fist".to_string() }],
        objects: vec![],
    })
    .unwrap();
    tx.send(WsFrameData { hand_count: Some(0), hands: vec![], objects: vec![] }).unwrap();
    let evs = drain_ws_events(&rx);
    assert_eq!(
        evs,
        vec![
            GameEvent::HandCountChanged(1),
            GameEvent::HandPinchDistance { hand_id: 0, distance: r32(0.5) },
            GameEvent::HandGesture { hand_id: 0, gesture: "fist".to_string() },
            GameEvent::HandCountChanged(0),
        ]
    );
}

#[test]
fn drain_works_after_sender_dropped() {
    let (tx, rx) = crossbeam_channel::unbounded::<RawOscMessage>();
    tx.send(RawOscMessage { addr: "/hand/count".to_string(), args: vec![OscArg::Int(4)] })
        .unwrap();
    drop(tx);
    assert_eq!(drain_osc_events(&rx), vec![GameEvent::HandCountChanged(4)]);
    assert_eq!(drain_osc_events(&rx), vec![]);
}

#[test]
fn stats_default_is_zeroed() {
    let s = GameEventStats::default();
    assert_eq!(s.hand_count_changed, 0);
    assert_eq!(s.hand_gesture, 0);
    assert_eq!(s.hand_pinch_distance, 0);
    assert_eq!(s.object_detected, 0);
    assert!(s.last_event.is_none());
    assert_eq!(s.total(), 0);
}

#[test]
fn stats_record_counts_by_kind() {
    let mut s = GameEventStats::default();
    s.record(GameEvent::HandCountChanged(2));
    s.record(GameEvent::HandGesture { hand_id: 0, gesture: "fist".to_string() });
    s.record(GameEvent::HandPinchDistance { hand_id: 0, distance: r32(0.5) });
    s.record(GameEvent::HandPinchDistance { hand_id: 1, distance: r32(0.7) });
    s.record(GameEvent::ObjectDetected { name: "cup".to_string(), x: r32(1.0), y: r32(2.0) });
    assert_eq!(s.hand_count_changed, 1);
    assert_eq!(s.hand_gesture, 1);
    assert_eq!(s.hand_pinch_distance, 2);
    assert_eq!(s.object_detected, 1);
    assert_eq!(s.total(), 5);
    assert_eq!(
        s.last_event,
        Some(GameEvent::ObjectDetected { name: "cup".to_string(), x: r32(1.0), y: r32(2.0) })
    );
}

#[test]
fn stats_process_events_in_order() {
    let mut s = GameEventStats::default();
    s.process_events(vec![
        GameEvent::HandCountChanged(1),
        GameEvent::HandCountChanged(2),
        GameEvent::HandGesture { hand_id: 0, gesture: "open".to_string() },
    ]);
    assert_eq!(s.hand_count_changed, 2);
    assert_eq!(s.hand_gesture, 1);
    assert_eq!(s.total(), 3);
    assert_eq!(s.last_event, Some(GameEvent::HandGesture { hand_id: 0, gesture: "open".to_string() }));
}

#[test]
fn stats_counter_saturates() {
    let mut s = GameEventStats {
        hand_count_changed: u32::MAX,
        hand_gesture: 0,
        hand_pinch_distance: 0,
        object_detected: 0,
        last_event: None,
    };
    s.record(GameEvent::HandCountChanged(1));
    assert_eq!(s.hand_count_changed, u32::MAX);
}

#[test]
fn stats_reset_zeroes_counters_keeps_last_event() {
    let mut s = GameEventStats::default();
    s.record(GameEvent::HandCountChanged(7));
    s._reset();
    assert_eq!(s.total(), 0);
    assert_eq!(s.last_event, Some(GameEvent::HandCountChanged(7)));
}

#[test]
fn stats_total_sums_all_kinds() {
    let s = GameEventStats {
        hand_count_changed: u32::MAX,
        hand_gesture: u32::MAX,
        hand_pinch_distance: u32::MAX,
        object_detected: u32::MAX,
        last_event: None,
    };
    assert_eq!(s.total(), 4 * (u32::MAX as u64));
}
