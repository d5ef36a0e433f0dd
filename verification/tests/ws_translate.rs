//! Tests of the WebSocket frame translator and the per-connection
//! read-loop policy.

use gesture_ingest::events::GameEvent;
use gesture_ingest::fbits::R32;
use gesture_ingest::ws::{
    connection_action, translate_ws_frame, WsFrameData, WsHandData, WsLoopAction, WsMessageEvent,
    WsObjectData,
};

fn r32(x: f32) -> R32 {
    R32 { bits: x.to_bits() }
}

fn hand(id: i32, pinch: f32, gesture: &str) -> WsHandData {
    WsHandData { id, pinch_distance: r32(pinch), gesture: gesture.to_string() }
}

/// Reads a frame out of a JSON text the way the transport edge does, using
/// the JSON values only.
fn frame_of_json(text: &str) -> Option<WsFrameData> {
    let v: serde_json::Value = serde_json::from_str(text).ok()?;
    let obj = v.as_object()?;
    let hand_count = match obj.get("hand_count") {
        Some(c) => Some(c.as_i64()? as i32),
        None => None,
    };
    let mut hands = Vec::new();
    for h in obj.get("hands")?.as_array()? {
        hands.push(WsHandData {
            id: h.get("id")?.as_i64()? as i32,
            pinch_distance: r32(h.get("pinch_distance")?.as_f64()? as f32),
            gesture: h.get("gesture")?.as_str()?.to_string(),
        });
    }
    let objects = vec![WsObjectData {}; obj.get("objects")?.as_array()?.len()];
    Some(WsFrameData { hand_count, hands, objects })
}

#[test]
fn round_trip_json_frame_three_events_in_order() {
    // A valid JSON frame yields exactly HandCountChanged, then
    // HandPinchDistance, then HandGesture.
    let text = r#"{"hand_count":2,"hands":[{"id":0,"pinch_distance":0.5,"gesture":"fist"}],"objects":[]}"#;
    let frame = frame_of_json(text).unwrap();
    let evs = translate_ws_frame(&frame);
    assert_eq!(
        evs,
        vec![
            GameEvent::HandCountChanged(2),
            GameEvent::HandPinchDistance { hand_id: 0, distance: r32(0.5) },
            GameEvent::HandGesture { hand_id: 0, gesture: "fist".to_string() },
        ]
    );
}

#[test]
fn negative_id_drops_whole_record() {
    let frame = WsFrameData {
        hand_count: None,
        hands: vec![hand(-1, 0.5, "open")],
        objects: vec![],
    };
    assert_eq!(translate_ws_frame(&frame), vec![]);
}

#[test]
fn pinch_and_gesture_validated_independently() {
    // id >= 0 with a NaN distance but a non-empty gesture yields exactly
    // the gesture event.
    let frame = WsFrameData {
        hand_count: None,
        hands: vec![hand(3, f32::NAN, "open")],
        objects: vec![],
    };
    assert_eq!(
        translate_ws_frame(&frame),
        vec![GameEvent::HandGesture { hand_id: 3, gesture: "open".to_string() }]
    );
}

#[test]
fn empty_gesture_keeps_pinch() {
    let frame = WsFrameData {
        hand_count: None,
        hands: vec![hand(1, 0.25, "")],
        objects: vec![],
    };
    assert_eq!(
        translate_ws_frame(&frame),
        vec![GameEvent::HandPinchDistance { hand_id: 1, distance: r32(0.25) }]
    );
}

#[test]
fn infinite_pinch_and_empty_gesture_yield_nothing() {
    let frame = WsFrameData {
        hand_count: None,
        hands: vec![hand(1, f32::INFINITY, "")],
        objects: vec![],
    };
    assert_eq!(translate_ws_frame(&frame), vec![]);
}

#[test]
fn negative_count_dropped_hands_still_processed() {
    let frame = WsFrameData {
        hand_count: Some(-2),
        hands: vec![hand(0, 0.5, "fist")],
        objects: vec![],
    };
    assert_eq!(
        translate_ws_frame(&frame),
        vec![
            GameEvent::HandPinchDistance { hand_id: 0, distance: r32(0.5) },
            GameEvent::HandGesture { hand_id: 0, gesture: "fist".to_string() },
        ]
    );
}

#[test]
fn missing_count_yields_no_count_event() {
    let frame = WsFrameData { hand_count: None, hands: vec![], objects: vec![] };
    assert_eq!(translate_ws_frame(&frame), vec![]);
}

#[test]
fn object_records_never_produce_events() {
    let frame = WsFrameData {
        hand_count: Some(1),
        hands: vec![],
        objects: vec![WsObjectData {}, WsObjectData {}],
    };
    assert_eq!(translate_ws_frame(&frame), vec![GameEvent::HandCountChanged(1)]);
}

#[test]
fn hands_processed_in_order() {
    let frame = WsFrameData {
        hand_count: None,
        hands: vec![hand(0, 0.1, ""), hand(1, 0.2, "")],
        objects: vec![],
    };
    assert_eq!(
        translate_ws_frame(&frame),
        vec![
            GameEvent::HandPinchDistance { hand_id: 0, distance: r32(0.1) },
            GameEvent::HandPinchDistance { hand_id: 1, distance: r32(0.2) },
        ]
    );
}

#[test]
fn malformed_json_gives_no_frame() {
    // The payload the read loop would skip: not a frame at all.
    assert!(frame_of_json("not json").is_none());
    assert!(frame_of_json(r#"{"hands":"nope"}"#).is_none());
}

#[test]
fn malformed_text_skips_connection_stays_open() {
    // The read-loop policy: malformed text is skipped, the connection is
    // not closed, and a later valid frame is still forwarded.
    let a = connection_action(WsMessageEvent::MalformedText);
    assert_eq!(a, WsLoopAction::Skip);
    let frame = frame_of_json(
        r#"{"hand_count":1,"hands":[],"objects":[]}"#,
    ).unwrap();
    let b = connection_action(WsMessageEvent::ParsedFrame(frame.clone()));
    assert_eq!(b, WsLoopAction::Forward(frame));
}

#[test]
fn close_and_errors_stop_only_that_loop() {
    assert_eq!(connection_action(WsMessageEvent::Close), WsLoopAction::Stop);
    assert_eq!(connection_action(WsMessageEvent::TransportError), WsLoopAction::Stop);
    assert_eq!(connection_action(WsMessageEvent::Other), WsLoopAction::Skip);
}
