//! The OSC side of the pipeline: the library's representation of decoded
//! OSC packets, the datagram decoder (behind the `rosc` crate), and the
//! translator that maps raw messages to canonical events.
//!
//! Recognized addresses and argument shapes:
//!
//! * `/hand/count` — one integer `n`; accepted when `n >= 0`.
//! * `/hand/gesture` — integer hand id, string gesture; accepted when the
//!   id is non-negative and the gesture is non-empty.
//! * `/hand/pinch` — integer hand id, float-or-double distance; the
//!   distance is coerced to single precision and accepted only when finite.
//! * `/object/detected` — string name, two float-or-double coordinates;
//!   accepted when the name is non-empty.
//!
//! Anything else translates to no event: one malformed message never
//! affects the processing of its neighbours.

use vstd::prelude::*;

use crate::events::{event_wf, EventV, GameEvent};
use crate::fbits::{finite32, R32};

verus! {

// ---------------------------------------------------------------------------
// Raw OSC data, as the library represents it.
// ---------------------------------------------------------------------------

/// Mathematical model of one OSC argument.
pub ghost enum ArgV {
    Int(int),
    Float(u32),
    /// A double-precision argument; the payload is its single-precision
    /// narrowing, taken at the decode boundary.
    Double(u32),
    Str(Seq<char>),
    Other,
}

/// Mathematical model of one OSC message.
pub ghost struct MsgV {
    pub addr: Seq<char>,
    pub args: Seq<ArgV>,
}

/// Mathematical model of one element of an OSC bundle.
pub ghost enum ItemV {
    Message(MsgV),
    Unsupported,
}

/// Mathematical model of one decoded OSC packet.
pub ghost enum PacketV {
    Message(MsgV),
    Bundle(Seq<ItemV>),
}

/// One typed OSC argument. Floats and doubles are carried as
/// single-precision bit patterns; a double is narrowed once, at the decode
/// boundary, which is the only use the translator makes of it. Argument
/// types the translator never reads (blobs, times, colors, ...) are
/// collapsed to [`OscArg::Other`].
#[derive(Debug, Clone, PartialEq)]
pub enum OscArg {
    Int(i32),
    Float(R32),
    Double(R32),
    Str(String),
    Other,
}

/// A decoded OSC message: an address and its ordered, typed arguments.
#[derive(Debug, Clone, PartialEq)]
pub struct RawOscMessage {
    pub addr: String,
    pub args: Vec<OscArg>,
}

/// One element of a decoded OSC bundle. The pipeline forwards a bundle's
/// directly nested messages only, so anything else (a nested bundle) is
/// kept as [`BundleItem::Unsupported`].
#[derive(Debug, Clone, PartialEq)]
pub enum BundleItem {
    Message(RawOscMessage),
    Unsupported,
}

/// A decoded OSC packet: a single message, or a bundle of elements.
#[derive(Debug, Clone, PartialEq)]
pub enum Packet {
    Message(RawOscMessage),
    Bundle(Vec<BundleItem>),
}

impl DeepView for OscArg {
    type V = ArgV;

    open spec fn deep_view(&self) -> ArgV {
        match *self {
            OscArg::Int(n) => ArgV::Int(n as int),
            OscArg::Float(b) => ArgV::Float(b.bits),
            OscArg::Double(b) => ArgV::Double(b.bits),
            OscArg::Str(s) => ArgV::Str(s@),
            OscArg::Other => ArgV::Other,
        }
    }
}

impl DeepView for RawOscMessage {
    type V = MsgV;

    open spec fn deep_view(&self) -> MsgV {
        MsgV { addr: self.addr@, args: self.args.deep_view() }
    }
}

impl DeepView for BundleItem {
    type V = ItemV;

    open spec fn deep_view(&self) -> ItemV {
        match *self {
            BundleItem::Message(m) => ItemV::Message(m.deep_view()),
            BundleItem::Unsupported => ItemV::Unsupported,
        }
    }
}

impl DeepView for Packet {
    type V = PacketV;

    open spec fn deep_view(&self) -> PacketV {
        match *self {
            Packet::Message(m) => PacketV::Message(m.deep_view()),
            Packet::Bundle(items) => PacketV::Bundle(items.deep_view()),
        }
    }
}

// ---------------------------------------------------------------------------
// Translation of one message, in the model.
// ---------------------------------------------------------------------------

/// The single-precision payload of a float-or-double argument; `None` for
/// any other argument type.
pub open spec fn single_bits_of(a: ArgV) -> Option<u32> {
    match a {
        ArgV::Float(b) => Some(b),
        ArgV::Double(b) => Some(b),
        _ => None,
    }
}

/// `/hand/count`: one integer argument, accepted when non-negative.
pub open spec fn hand_count_event(args: Seq<ArgV>) -> Option<EventV> {
    if args.len() >= 1 {
        match args[0] {
            ArgV::Int(n) => if n >= 0 {
                Some(EventV::HandCountChanged { count: n })
            } else {
                None
            },
            _ => None,
        }
    } else {
        None
    }
}

/// `/hand/gesture`: an integer hand id and a string gesture, accepted when
/// the id is non-negative and the gesture is non-empty.
pub open spec fn hand_gesture_event(args: Seq<ArgV>) -> Option<EventV> {
    if args.len() >= 2 {
        match (args[0], args[1]) {
            (ArgV::Int(id), ArgV::Str(g)) => if id >= 0 && g.len() > 0 {
                Some(EventV::HandGesture { hand_id: id, gesture: g })
            } else {
                None
            },
            _ => None,
        }
    } else {
        None
    }
}

/// `/hand/pinch`: an integer hand id and a float-or-double distance,
/// accepted when the id is non-negative and the single-precision distance
/// is finite.
pub open spec fn hand_pinch_event(args: Seq<ArgV>) -> Option<EventV> {
    if args.len() >= 2 {
        match args[0] {
            ArgV::Int(id) => match single_bits_of(args[1]) {
                Some(bits) => if id >= 0 && finite32(bits) {
                    Some(EventV::HandPinchDistance { hand_id: id, distance: bits })
                } else {
                    None
                },
                None => None,
            },
            _ => None,
        }
    } else {
        None
    }
}

/// `/object/detected`: a string name and two float-or-double coordinates,
/// accepted when the name is non-empty.
pub open spec fn object_detected_event(args: Seq<ArgV>) -> Option<EventV> {
    if args.len() >= 3 {
        match args[0] {
            ArgV::Str(name) => match (single_bits_of(args[1]), single_bits_of(args[2])) {
                (Some(xb), Some(yb)) => if name.len() > 0 {
                    Some(EventV::ObjectDetected { name: name, x: xb, y: yb })
                } else {
                    None
                },
                _ => None,
            },
            _ => None,
        }
    } else {
        None
    }
}

/// The canonical event, if any, that one OSC message translates to.
pub open spec fn osc_event(m: MsgV) -> Option<EventV> {
    if m.addr == "/hand/count"@ {
        hand_count_event(m.args)
    } else if m.addr == "/hand/gesture"@ {
        hand_gesture_event(m.args)
    } else if m.addr == "/hand/pinch"@ {
        hand_pinch_event(m.args)
    } else if m.addr == "/object/detected"@ {
        object_detected_event(m.args)
    } else {
        None
    }
}

// ---------------------------------------------------------------------------
// Translation of one message, executable.
// ---------------------------------------------------------------------------

/// Extracts the single-precision payload of a float-or-double argument.
pub fn single_value(a: &OscArg) -> (r: Option<R32>)
    ensures
        r matches Some(v) ==> single_bits_of(a.deep_view()) == Some(v.bits),
        r is None ==> single_bits_of(a.deep_view()) is None,
{
    match a {
        OscArg::Float(b) => Some(*b),
        OscArg::Double(b) => Some(*b),
        _ => None,
    }
}

/// Translates one raw OSC message into at most one canonical event,
/// validating as [`osc_event`] prescribes.
pub fn translate_osc_message(msg: &RawOscMessage) -> (r: Option<GameEvent>)
    ensures
        r.deep_view() == osc_event(msg.deep_view()),
{
    if msg.addr == String::from_str("/hand/count") {
        if msg.args.len() >= 1 {
            match &msg.args[0] {
                OscArg::Int(n) => if *n >= 0 {
                    Some(GameEvent::HandCountChanged(*n))
                } else {
                    None
                },
                _ => None,
            }
        } else {
            None
        }
    } else if msg.addr == String::from_str("/hand/gesture") {
        if msg.args.len() >= 2 {
            match (&msg.args[0], &msg.args[1]) {
                (OscArg::Int(id), OscArg::Str(g)) => if *id >= 0 && !g.as_str().is_empty() {
                    Some(GameEvent::HandGesture { hand_id: *id, gesture: g.clone() })
                } else {
                    None
                },
                _ => None,
            }
        } else {
            None
        }
    } else if msg.addr == String::from_str("/hand/pinch") {
        if msg.args.len() >= 2 {
            match &msg.args[0] {
                OscArg::Int(id) => match single_value(&msg.args[1]) {
                    Some(d) => if *id >= 0 && d.is_finite() {
                        Some(GameEvent::HandPinchDistance { hand_id: *id, distance: d })
                    } else {
                        None
                    },
                    None => None,
                },
                _ => None,
            }
        } else {
            None
        }
    } else if msg.addr == String::from_str("/object/detected") {
        if msg.args.len() >= 3 {
            match &msg.args[0] {
                OscArg::Str(name) => match (single_value(&msg.args[1]), single_value(
                    &msg.args[2],
                )) {
                    (Some(x), Some(y)) => if !name.as_str().is_empty() {
                        Some(GameEvent::ObjectDetected { name: name.clone(), x, y })
                    } else {
                        None
                    },
                    _ => None,
                },
                _ => None,
            }
        } else {
            None
        }
    } else {
        None
    }
}

// ---------------------------------------------------------------------------
// Translation of a batch of messages.
// ---------------------------------------------------------------------------

/// The events of one optional translation result: one event or none.
pub open spec fn opt_events(o: Option<EventV>) -> Seq<EventV> {
    match o {
        Some(e) => seq![e],
        None => Seq::empty(),
    }
}

/// The events a batch of OSC messages translates to, in order.
pub open spec fn osc_batch_events(msgs: Seq<MsgV>) -> Seq<EventV>
    decreases msgs.len(),
{
    if msgs.len() == 0 {
        Seq::empty()
    } else {
        opt_events(osc_event(msgs[0])) + osc_batch_events(msgs.drop_first())
    }
}

proof fn lemma_osc_batch_events_skip(msgs: Seq<MsgV>, i: int)
    requires
        0 <= i < msgs.len(),
    ensures
        osc_batch_events(msgs.skip(i)) == opt_events(osc_event(msgs[i])) + osc_batch_events(
            msgs.skip(i + 1),
        ),
{
    assert(msgs.skip(i)[0] == msgs[i]);
    assert(msgs.skip(i).drop_first() =~= msgs.skip(i + 1));
}

/// Translates a batch of raw OSC messages, in order; messages that carry
/// no recognized, valid event contribute nothing.
pub fn translate_osc_batch(msgs: &Vec<RawOscMessage>) -> (evs: Vec<GameEvent>)
    ensures
        evs.deep_view() == osc_batch_events(msgs.deep_view()),
{
    let ghost all = msgs.deep_view();
    let mut evs: Vec<GameEvent> = Vec::new();
    let mut i: usize = 0;
    proof {
        assert(all.skip(0) =~= all);
    }
    while i < msgs.len()
        invariant
            i <= msgs.len(),
            all == msgs.deep_view(),
            evs.deep_view() + osc_batch_events(all.skip(i as int)) == osc_batch_events(all),
        decreases msgs.len() - i,
    {
        proof {
            lemma_osc_batch_events_skip(all, i as int);
        }
        let ghost evs_pre = evs.deep_view();
        match translate_osc_message(&msgs[i]) {
            Some(e) => {
                evs.push(e);
                proof {
                    assert(evs.deep_view() =~= evs_pre + opt_events(osc_event(all[i as int])));
                }
            },
            None => {
                proof {
                    assert(evs.deep_view() =~= evs_pre + opt_events(osc_event(all[i as int])));
                }
            },
        }
        i = i + 1;
        proof {
            assert(evs.deep_view() + osc_batch_events(all.skip(i as int)) =~= osc_batch_events(
                all,
            ));
        }
    }
    proof {
        assert(all.skip(msgs.len() as int) =~= Seq::empty());
        assert(evs.deep_view() =~= osc_batch_events(all));
    }
    evs
}

// ---------------------------------------------------------------------------
// Decoding a datagram, behind the rosc crate.
// ---------------------------------------------------------------------------

/// Declares `rosc::OscError`, the decoder's error type, so it can be kept
/// inside [`OscDecodeError`]; it is opaque here.
#[verifier::external_type_specification]
#[verifier::external_body]
pub struct ExOscError(rosc::OscError);

/// Declares `rosc::OscMessage`, the decoder's message type, so the
/// conversion subroutine can take it; it is opaque here.
#[verifier::external_type_specification]
#[verifier::external_body]
pub struct ExOscMessage(rosc::OscMessage);

/// The packet, in the library's representation, that OSC-decoding a
/// datagram yields, or `None` where the bytes are not a well-formed OSC
/// packet. Decoding is a pure function of the bytes; its value is pinned
/// down only by this name.
pub uninterp spec fn decoded_packet(datagram: Seq<u8>) -> Option<PacketV>;

/// Conversion subroutine of [`rosc_decode_udp`]: carries a decoded
/// `rosc::OscMessage` into the library's representation. Integer and
/// string arguments move unchanged; a float argument becomes its bit
/// pattern; a double argument is narrowed to single precision (Rust's
/// built-in IEEE 754 narrowing cast, here written with `OscType::Float` as
/// the inference anchor because this library spells no floating-point
/// type); every other argument type becomes `OscArg::Other`.
#[verifier::external_body]
fn msg_of_osc(m: rosc::OscMessage) -> RawOscMessage {
    let args = m.args.into_iter().map(|t| match t {
        rosc::OscType::Int(i) => OscArg::Int(i),
        rosc::OscType::Float(f) => OscArg::Float(R32 { bits: f.to_bits() }),
        rosc::OscType::Double(d) => match rosc::OscType::Float(d as _) {
            rosc::OscType::Float(f) => OscArg::Double(R32 { bits: f.to_bits() }),
            _ => OscArg::Other,
        },
        rosc::OscType::String(s) => OscArg::Str(s),
        _ => OscArg::Other,
    }).collect();
    RawOscMessage { addr: m.addr, args }
}

/// Relies on `rosc::decoder::decode_udp`: decodes one OSC 1.0 packet (a
/// message, or a bundle whose elements are taken one level deep) from a
/// datagram, a pure function of the bytes. The result is carried into the
/// library's representation by [`msg_of_osc`] and named by
/// [`decoded_packet`].
#[verifier::external_body]
fn rosc_decode_udp(datagram: &[u8]) -> (r: Result<Packet, rosc::OscError>)
    ensures
        r is Ok <==> decoded_packet(datagram@) is Some,
        r matches Ok(p) ==> p.deep_view() == decoded_packet(datagram@)->0,
{
    rosc::decoder::decode_udp(datagram).map(|(_, p)| match p {
        rosc::OscPacket::Message(m) => Packet::Message(msg_of_osc(m)),
        rosc::OscPacket::Bundle(b) => Packet::Bundle(b.content.into_iter().map(|q| match q {
            rosc::OscPacket::Message(m) => BundleItem::Message(msg_of_osc(m)),
            _ => BundleItem::Unsupported,
        }).collect()),
    })
}

/// A datagram that did not decode as an OSC packet. The decoder's own
/// error value is kept so the transport edge can log it.
#[derive(Debug)]
pub struct OscDecodeError {
    pub cause: rosc::OscError,
}

/// The messages one bundle element contributes: its message, or nothing.
pub open spec fn item_messages(it: ItemV) -> Seq<MsgV> {
    match it {
        ItemV::Message(m) => seq![m],
        ItemV::Unsupported => Seq::empty(),
    }
}

/// The messages of a bundle's elements, in nested order.
pub open spec fn items_messages(items: Seq<ItemV>) -> Seq<MsgV>
    decreases items.len(),
{
    if items.len() == 0 {
        Seq::empty()
    } else {
        item_messages(items[0]) + items_messages(items.drop_first())
    }
}

/// The raw messages one decoded packet forwards: a single message as
/// itself, a bundle as its directly nested messages in order.
pub open spec fn packet_messages(p: PacketV) -> Seq<MsgV> {
    match p {
        PacketV::Message(m) => seq![m],
        PacketV::Bundle(items) => items_messages(items),
    }
}

/// Flattens one decoded packet into the raw messages it forwards.
pub fn flatten_packet(p: Packet) -> (msgs: Vec<RawOscMessage>)
    ensures
        msgs.deep_view() == packet_messages(p.deep_view()),
{
    match p {
        Packet::Message(m) => {
            let mut msgs: Vec<RawOscMessage> = Vec::new();
            msgs.push(m);
            proof {
                assert(msgs.deep_view() =~= packet_messages(p.deep_view()));
            }
            msgs
        },
        Packet::Bundle(items) => {
            let ghost all = items.deep_view();
            let mut msgs: Vec<RawOscMessage> = Vec::new();
            let mut rest = items;
            while rest.len() > 0
                invariant
                    msgs.deep_view() + items_messages(rest.deep_view()) == items_messages(all),
                decreases rest.len(),
            {
                let ghost rest_pre = rest.deep_view();
                let ghost msgs_pre = msgs.deep_view();
                let it = rest.remove(0);
                proof {
                    assert(rest.deep_view() =~= rest_pre.drop_first());
                    assert(it.deep_view() == rest_pre[0]);
                }
                match it {
                    BundleItem::Message(m) => {
                        msgs.push(m);
                        proof {
                            assert(msgs.deep_view() =~= msgs_pre + item_messages(rest_pre[0]));
                        }
                    },
                    BundleItem::Unsupported => {
                        proof {
                            assert(msgs.deep_view() =~= msgs_pre + item_messages(rest_pre[0]));
                        }
                    },
                }
                proof {
                    assert(msgs.deep_view() + items_messages(rest.deep_view()) =~= items_messages(
                        all,
                    ));
                }
            }
            proof {
                assert(items_messages(rest.deep_view()) =~= Seq::empty());
                assert(msgs.deep_view() =~= items_messages(all));
            }
            msgs
        },
    }
}

/// Decodes one UDP datagram into the raw OSC messages it forwards: a
/// message packet gives that one message, a bundle gives its directly
/// nested messages in nested order, and bytes that do not decode give the
/// decoder's error.
pub fn decode_datagram(datagram: &[u8]) -> (r: Result<Vec<RawOscMessage>, OscDecodeError>)
    ensures
        r is Ok <==> decoded_packet(datagram@) is Some,
        r matches Ok(msgs) ==> msgs.deep_view() == packet_messages(decoded_packet(datagram@)->0),
{
    match rosc_decode_udp(datagram) {
        Ok(p) => Ok(flatten_packet(p)),
        Err(e) => Err(OscDecodeError { cause: e }),
    }
}

// ---------------------------------------------------------------------------
// Laws of the OSC translation.
// ---------------------------------------------------------------------------

/// A `/hand/count` message whose first argument is an integer `n >= 0`
/// translates to exactly the event `HandCountChanged(n)`.
pub proof fn lemma_hand_count_accepted(m: MsgV, n: int)
    requires
        m.addr == "/hand/count"@,
        m.args.len() >= 1,
        m.args[0] == ArgV::Int(n),
        n >= 0,
    ensures
        osc_event(m) == Some(EventV::HandCountChanged { count: n }),
{
}

/// A `/hand/pinch` message whose distance argument is mistyped, or whose
/// single-precision distance is not finite, translates to no event.
pub proof fn lemma_pinch_rejected(m: MsgV)
    requires
        m.addr == "/hand/pinch"@,
        m.args.len() >= 2,
        match single_bits_of(m.args[1]) {
            Some(bits) => !finite32(bits),
            None => true,
        },
    ensures
        osc_event(m) == None::<EventV>,
{
    reveal_strlit("/hand/pinch");
    reveal_strlit("/hand/count");
    reveal_strlit("/hand/gesture");
    assert(m.addr != "/hand/count"@) by {
        assert("/hand/pinch"@[6] != "/hand/count"@[6]);
    }
    assert(m.addr != "/hand/gesture"@) by {
        assert("/hand/pinch"@.len() != "/hand/gesture"@.len());
    }
}

/// Every event the OSC translation emits satisfies the canonical event
/// invariant: only validated events reach the stream.
pub proof fn lemma_osc_event_wf(m: MsgV)
    ensures
        osc_event(m) matches Some(e) ==> event_wf(e),
{
}

/// Every event a translated batch holds satisfies the canonical event
/// invariant.
pub proof fn lemma_osc_batch_events_wf(msgs: Seq<MsgV>)
    ensures
        forall|i: int|
            0 <= i < osc_batch_events(msgs).len() ==> event_wf(#[trigger] osc_batch_events(msgs)[i]),
    decreases msgs.len(),
{
    if msgs.len() > 0 {
        lemma_osc_event_wf(msgs[0]);
        lemma_osc_batch_events_wf(msgs.drop_first());
        let head = opt_events(osc_event(msgs[0]));
        let tail = osc_batch_events(msgs.drop_first());
        assert forall|i: int|
            0 <= i < osc_batch_events(msgs).len() implies event_wf(
            #[trigger] osc_batch_events(msgs)[i],
        ) by {
            if i < head.len() {
                assert(osc_batch_events(msgs)[i] == head[i]);
            } else {
                assert(osc_batch_events(msgs)[i] == tail[i - head.len()]);
            }
        }
    }
}

/// A batch with no messages produces no events: draining finds nothing
/// where nothing was received.
pub proof fn lemma_osc_batch_empty()
    ensures
        osc_batch_events(Seq::empty()) == Seq::<EventV>::empty(),
{
}

/// A bundle whose elements are all messages forwards exactly those
/// messages, in their nested order.
pub proof fn lemma_bundle_preserves_messages(items: Seq<ItemV>)
    requires
        forall|i: int| 0 <= i < items.len() ==> (#[trigger] items[i]) is Message,
    ensures
        packet_messages(PacketV::Bundle(items)).len() == items.len(),
        forall|i: int|
            0 <= i < items.len() ==> packet_messages(PacketV::Bundle(items))[i] == items[i]->Message_0,
    decreases items.len(),
{
    if items.len() > 0 {
        let rest = items.drop_first();
        assert(forall|i: int| 0 <= i < rest.len() ==> (#[trigger] rest[i]) is Message) by {
            assert(forall|i: int| 0 <= i < rest.len() ==> rest[i] == items[i + 1]);
        }
        lemma_bundle_preserves_messages(rest);
        let msgs = packet_messages(PacketV::Bundle(items));
        assert forall|i: int| 0 <= i < items.len() implies msgs[i] == items[i]->Message_0 by {
            if i > 0 {
                assert(msgs[i] == items_messages(rest)[i - 1]);
                assert(rest[i - 1] == items[i]);
            }
        }
    }
}

} // verus!
