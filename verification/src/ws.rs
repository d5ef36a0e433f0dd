//! The WebSocket side of the pipeline: the library's representation of one
//! decoded JSON frame, the translator that maps frames to canonical events,
//! and the per-connection read-loop policy.
//!
//! A frame carries an optional hand count, a list of per-hand records and a
//! list of object records. The count is accepted when non-negative. A hand
//! record with a negative id is dropped whole; otherwise its pinch distance
//! and its gesture are validated independently, so one record yields zero,
//! one or two events. Object records carry no usable fields in the current
//! wire format and never produce events.

use vstd::prelude::*;

use crate::events::{event_wf, EventV, GameEvent};
use crate::fbits::{finite32, R32};

verus! {

// ---------------------------------------------------------------------------
// Raw frames, as the library represents them.
// ---------------------------------------------------------------------------

/// Mathematical model of one per-hand record.
pub ghost struct HandV {
    pub id: int,
    pub pinch_bits: u32,
    pub gesture: Seq<char>,
}

/// Mathematical model of one object record (no usable fields yet).
pub ghost struct ObjectV {}

/// Mathematical model of one decoded frame.
pub ghost struct FrameV {
    pub hand_count: Option<int>,
    pub hands: Seq<HandV>,
    pub objects: Seq<ObjectV>,
}

/// One per-hand record of a frame.
#[derive(Debug, Clone, PartialEq)]
pub struct WsHandData {
    pub id: i32,
    pub pinch_distance: R32,
    pub gesture: String,
}

/// One object record of a frame. The current wire format gives it no
/// usable fields; it is kept as a hook for future extension.
#[derive(Debug, Clone, PartialEq)]
pub struct WsObjectData {}

/// One decoded JSON frame.
#[derive(Debug, Clone, PartialEq)]
pub struct WsFrameData {
    pub hand_count: Option<i32>,
    pub hands: Vec<WsHandData>,
    pub objects: Vec<WsObjectData>,
}

impl DeepView for WsHandData {
    type V = HandV;

    open spec fn deep_view(&self) -> HandV {
        HandV { id: self.id as int, pinch_bits: self.pinch_distance.bits, gesture: self.gesture@ }
    }
}

impl DeepView for WsObjectData {
    type V = ObjectV;

    open spec fn deep_view(&self) -> ObjectV {
        ObjectV {  }
    }
}

impl DeepView for WsFrameData {
    type V = FrameV;

    open spec fn deep_view(&self) -> FrameV {
        FrameV {
            hand_count: match self.hand_count {
                Some(n) => Some(n as int),
                None => None,
            },
            hands: self.hands.deep_view(),
            objects: self.objects.deep_view(),
        }
    }
}

// ---------------------------------------------------------------------------
// Translation of one frame, in the model.
// ---------------------------------------------------------------------------

/// The event of a frame's hand-count field: one `HandCountChanged` where
/// the field is present and non-negative, none otherwise.
pub open spec fn count_events(c: Option<int>) -> Seq<EventV> {
    match c {
        Some(n) => if n >= 0 {
            seq![EventV::HandCountChanged { count: n }]
        } else {
            Seq::empty()
        },
        None => Seq::empty(),
    }
}

/// The events of one hand record. A negative id rejects the record whole;
/// otherwise the pinch distance (finite?) and the gesture (non-empty?) are
/// validated independently, pinch first.
pub open spec fn hand_events(h: HandV) -> Seq<EventV> {
    if h.id < 0 {
        Seq::empty()
    } else {
        (if finite32(h.pinch_bits) {
            seq![EventV::HandPinchDistance { hand_id: h.id, distance: h.pinch_bits }]
        } else {
            Seq::empty()
        }) + (if h.gesture.len() > 0 {
            seq![EventV::HandGesture { hand_id: h.id, gesture: h.gesture }]
        } else {
            Seq::empty()
        })
    }
}

/// The events of a frame's hand records, in record order.
pub open spec fn hands_events(hs: Seq<HandV>) -> Seq<EventV>
    decreases hs.len(),
{
    if hs.len() == 0 {
        Seq::empty()
    } else {
        hand_events(hs[0]) + hands_events(hs.drop_first())
    }
}

/// The events one frame translates to: the hand-count event, then the hand
/// records' events in order. Object records never produce events.
pub open spec fn frame_events(f: FrameV) -> Seq<EventV> {
    count_events(f.hand_count) + hands_events(f.hands)
}

/// The events a batch of frames translates to, in order.
pub open spec fn frames_events(fs: Seq<FrameV>) -> Seq<EventV>
    decreases fs.len(),
{
    if fs.len() == 0 {
        Seq::empty()
    } else {
        frame_events(fs[0]) + frames_events(fs.drop_first())
    }
}

// ---------------------------------------------------------------------------
// Translation, executable.
// ---------------------------------------------------------------------------

proof fn lemma_hands_events_skip(hs: Seq<HandV>, i: int)
    requires
        0 <= i < hs.len(),
    ensures
        hands_events(hs.skip(i)) == hand_events(hs[i]) + hands_events(hs.skip(i + 1)),
{
    assert(hs.skip(i)[0] == hs[i]);
    assert(hs.skip(i).drop_first() =~= hs.skip(i + 1));
}

/// Translates one decoded frame into its canonical events, validating as
/// [`frame_events`] prescribes.
pub fn translate_ws_frame(frame: &WsFrameData) -> (evs: Vec<GameEvent>)
    ensures
        evs.deep_view() == frame_events(frame.deep_view()),
{
    let ghost f = frame.deep_view();
    let mut evs: Vec<GameEvent> = Vec::new();
    match frame.hand_count {
        Some(n) => {
            if n >= 0 {
                evs.push(GameEvent::HandCountChanged(n));
            }
        },
        None => {},
    }
    proof {
        assert(evs.deep_view() =~= count_events(f.hand_count));
    }
    let ghost hands = f.hands;
    let mut i: usize = 0;
    proof {
        assert(hands.skip(0) =~= hands);
    }
    while i < frame.hands.len()
        invariant
            i <= frame.hands.len(),
            f == frame.deep_view(),
            hands == f.hands,
            evs.deep_view() + hands_events(hands.skip(i as int)) == count_events(f.hand_count)
                + hands_events(hands),
        decreases frame.hands.len() - i,
    {
        proof {
            lemma_hands_events_skip(hands, i as int);
        }
        let ghost evs_pre = evs.deep_view();
        let hand = &frame.hands[i];
        if hand.id >= 0 {
            if hand.pinch_distance.is_finite() {
                evs.push(
                    GameEvent::HandPinchDistance {
                        hand_id: hand.id,
                        distance: hand.pinch_distance,
                    },
                );
            }
            if !hand.gesture.as_str().is_empty() {
                evs.push(GameEvent::HandGesture { hand_id: hand.id, gesture: hand.gesture.clone() });
            }
        }
        proof {
            assert(evs.deep_view() =~= evs_pre + hand_events(hands[i as int]));
        }
        i = i + 1;
        proof {
            assert(evs.deep_view() + hands_events(hands.skip(i as int)) =~= count_events(
                f.hand_count,
            ) + hands_events(hands));
        }
    }
    proof {
        assert(hands.skip(frame.hands.len() as int) =~= Seq::empty());
        assert(evs.deep_view() =~= frame_events(f));
    }
    evs
}

proof fn lemma_frames_events_skip(fs: Seq<FrameV>, i: int)
    requires
        0 <= i < fs.len(),
    ensures
        frames_events(fs.skip(i)) == frame_events(fs[i]) + frames_events(fs.skip(i + 1)),
{
    assert(fs.skip(i)[0] == fs[i]);
    assert(fs.skip(i).drop_first() =~= fs.skip(i + 1));
}

/// Translates a batch of decoded frames, in order.
pub fn translate_ws_frames(frames: &Vec<WsFrameData>) -> (evs: Vec<GameEvent>)
    ensures
        evs.deep_view() == frames_events(frames.deep_view()),
{
    let ghost all = frames.deep_view();
    let mut evs: Vec<GameEvent> = Vec::new();
    let mut i: usize = 0;
    proof {
        assert(all.skip(0) =~= all);
    }
    while i < frames.len()
        invariant
            i <= frames.len(),
            all == frames.deep_view(),
            evs.deep_view() + frames_events(all.skip(i as int)) == frames_events(all),
        decreases frames.len() - i,
    {
        proof {
            lemma_frames_events_skip(all, i as int);
        }
        let ghost evs_pre = evs.deep_view();
        let mut sub = translate_ws_frame(&frames[i]);
        let ghost sub_dv = sub.deep_view();
        evs.append(&mut sub);
        proof {
            assert(evs.deep_view() =~= evs_pre + sub_dv);
        }
        i = i + 1;
        proof {
            assert(evs.deep_view() + frames_events(all.skip(i as int)) =~= frames_events(all));
        }
    }
    proof {
        assert(all.skip(frames.len() as int) =~= Seq::empty());
        assert(evs.deep_view() =~= frames_events(all));
    }
    evs
}

// ---------------------------------------------------------------------------
// The per-connection read-loop policy.
// ---------------------------------------------------------------------------

/// What one received WebSocket message means to a connection's read loop,
/// as classified at the transport edge.
pub enum WsMessageEvent {
    /// A text frame whose payload parsed as a frame.
    ParsedFrame(WsFrameData),
    /// A text frame whose payload did not parse.
    MalformedText,
    /// The peer's close frame.
    Close,
    /// A lower-level connection error.
    TransportError,
    /// Any other message (binary, ping, pong, ...).
    Other,
}

/// What the read loop does next with one received message.
#[derive(Debug, PartialEq)]
pub enum WsLoopAction {
    /// Forward the decoded frame to the channel.
    Forward(WsFrameData),
    /// Ignore the message and keep reading; in particular, malformed text
    /// never closes the connection.
    Skip,
    /// Stop reading; only this connection is affected.
    Stop,
}

/// The read-loop policy for one received message: parsed frames are
/// forwarded, malformed text and unusable message kinds are skipped with
/// the connection kept open, and only a close frame or a transport error
/// ends the loop.
pub fn connection_action(ev: WsMessageEvent) -> (a: WsLoopAction)
    ensures
        ev matches WsMessageEvent::ParsedFrame(f) ==> a == WsLoopAction::Forward(f),
        ev is MalformedText ==> a == WsLoopAction::Skip,
        ev is Close ==> a == WsLoopAction::Stop,
        ev is TransportError ==> a == WsLoopAction::Stop,
        ev is Other ==> a == WsLoopAction::Skip,
{
    match ev {
        WsMessageEvent::ParsedFrame(f) => WsLoopAction::Forward(f),
        WsMessageEvent::MalformedText => WsLoopAction::Skip,
        WsMessageEvent::Close => WsLoopAction::Stop,
        WsMessageEvent::TransportError => WsLoopAction::Stop,
        WsMessageEvent::Other => WsLoopAction::Skip,
    }
}

// ---------------------------------------------------------------------------
// Laws of the WebSocket translation.
// ---------------------------------------------------------------------------

/// A hand record with a negative id yields no event at all; with a
/// non-negative id its pinch distance and gesture are validated
/// independently, each contributing exactly its own event.
pub proof fn lemma_hand_record_validation(h: HandV)
    ensures
        h.id < 0 ==> hand_events(h) == Seq::<EventV>::empty(),
        h.id >= 0 && finite32(h.pinch_bits) && h.gesture.len() > 0 ==> hand_events(h) == seq![
            EventV::HandPinchDistance { hand_id: h.id, distance: h.pinch_bits },
            EventV::HandGesture { hand_id: h.id, gesture: h.gesture },
        ],
        h.id >= 0 && !finite32(h.pinch_bits) && h.gesture.len() > 0 ==> hand_events(h) == seq![
            EventV::HandGesture { hand_id: h.id, gesture: h.gesture },
        ],
        h.id >= 0 && finite32(h.pinch_bits) && h.gesture.len() == 0 ==> hand_events(h) == seq![
            EventV::HandPinchDistance { hand_id: h.id, distance: h.pinch_bits },
        ],
        h.id >= 0 && !finite32(h.pinch_bits) && h.gesture.len() == 0 ==> hand_events(h)
            == Seq::<EventV>::empty(),
{
    if h.id >= 0 {
        if finite32(h.pinch_bits) && h.gesture.len() > 0 {
            assert(hand_events(h) =~= seq![
                EventV::HandPinchDistance { hand_id: h.id, distance: h.pinch_bits },
                EventV::HandGesture { hand_id: h.id, gesture: h.gesture },
            ]);
        } else if !finite32(h.pinch_bits) && h.gesture.len() > 0 {
            assert(hand_events(h) =~= seq![
                EventV::HandGesture { hand_id: h.id, gesture: h.gesture },
            ]);
        } else if finite32(h.pinch_bits) {
            assert(hand_events(h) =~= seq![
                EventV::HandPinchDistance { hand_id: h.id, distance: h.pinch_bits },
            ]);
        } else {
            assert(hand_events(h) =~= Seq::<EventV>::empty());
        }
    }
}

/// Every event one hand record contributes satisfies the canonical event
/// invariant.
proof fn lemma_hand_events_wf(h: HandV)
    ensures
        forall|i: int| 0 <= i < hand_events(h).len() ==> event_wf(#[trigger] hand_events(h)[i]),
{
}

/// Every event the translation of a frame's hand records emits satisfies
/// the canonical event invariant.
proof fn lemma_hands_events_wf(hs: Seq<HandV>)
    ensures
        forall|i: int|
            0 <= i < hands_events(hs).len() ==> event_wf(#[trigger] hands_events(hs)[i]),
    decreases hs.len(),
{
    if hs.len() > 0 {
        lemma_hand_events_wf(hs[0]);
        lemma_hands_events_wf(hs.drop_first());
        let head = hand_events(hs[0]);
        let tail = hands_events(hs.drop_first());
        assert forall|i: int| 0 <= i < hands_events(hs).len() implies event_wf(
            #[trigger] hands_events(hs)[i],
        ) by {
            if i < head.len() {
                assert(hands_events(hs)[i] == head[i]);
            } else {
                assert(hands_events(hs)[i] == tail[i - head.len()]);
            }
        }
    }
}

/// Every event the translation of one frame emits satisfies the canonical
/// event invariant: only validated events reach the stream.
pub proof fn lemma_frame_events_wf(f: FrameV)
    ensures
        forall|i: int| 0 <= i < frame_events(f).len() ==> event_wf(#[trigger] frame_events(f)[i]),
{
    lemma_hands_events_wf(f.hands);
    let head = count_events(f.hand_count);
    let tail = hands_events(f.hands);
    assert forall|i: int| 0 <= i < frame_events(f).len() implies event_wf(
        #[trigger] frame_events(f)[i],
    ) by {
        if i < head.len() {
            assert(frame_events(f)[i] == head[i]);
        } else {
            assert(frame_events(f)[i] == tail[i - head.len()]);
        }
    }
}

/// Every event a translated batch of frames holds satisfies the canonical
/// event invariant.
pub proof fn lemma_frames_events_wf(fs: Seq<FrameV>)
    ensures
        forall|i: int|
            0 <= i < frames_events(fs).len() ==> event_wf(#[trigger] frames_events(fs)[i]),
    decreases fs.len(),
{
    if fs.len() > 0 {
        lemma_frame_events_wf(fs[0]);
        lemma_frames_events_wf(fs.drop_first());
        let head = frame_events(fs[0]);
        let tail = frames_events(fs.drop_first());
        assert forall|i: int| 0 <= i < frames_events(fs).len() implies event_wf(
            #[trigger] frames_events(fs)[i],
        ) by {
            if i < head.len() {
                assert(frames_events(fs)[i] == head[i]);
            } else {
                assert(frames_events(fs)[i] == tail[i - head.len()]);
            }
        }
    }
}

/// A batch with no frames produces no events: draining finds nothing where
/// nothing was received.
pub proof fn lemma_frames_empty()
    ensures
        frames_events(Seq::empty()) == Seq::<EventV>::empty(),
{
}

} // verus!