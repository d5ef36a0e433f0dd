//! Draining the cross-thread channels.
//!
//! Each transport's listener thread pushes decoded wire data into an
//! unbounded multi-producer/single-consumer channel; the consuming side
//! drains its channel to exhaustion once per tick, non-blockingly, and
//! translates what it found. The channel is unbounded, so a slow consumer
//! never blocks a producer but can grow memory without bound — an accepted
//! property of this design, not enforced here.
//!
//! What a drain returns depends on the sending threads, so its contract
//! promises what holds of every outcome: the events are exactly the
//! in-order translation of some batch of received wire data, and every one
//! of them satisfies the canonical event invariant.

use vstd::prelude::*;

use crate::events::{event_wf, GameEvent};
use crate::osc::{lemma_osc_batch_events_wf, osc_batch_events, translate_osc_batch, MsgV, RawOscMessage};
use crate::ws::{frames_events, lemma_frames_events_wf, translate_ws_frames, FrameV, WsFrameData};

verus! {

/// Declares `crossbeam_channel::Receiver`, the consuming end of each
/// transport's channel; it is opaque here.
#[verifier::external_type_specification]
#[verifier::external_body]
#[verifier::reject_recursive_types(T)]
pub struct ExReceiver<T>(crossbeam_channel::Receiver<T>);

/// Relies on `crossbeam_channel::Receiver::try_iter`: pops every message
/// currently buffered, in the order it was sent, without ever blocking,
/// and stops as soon as the channel is empty or disconnected. What arrives
/// depends on the sending threads, so nothing is assumed of the result.
#[verifier::external_body]
fn drain_channel<T>(rx: &crossbeam_channel::Receiver<T>) -> (r: Vec<T>) {
    rx.try_iter().collect()
}

/// Drains every raw OSC message currently buffered and translates the
/// batch in arrival order: the result is exactly the translation of the
/// received batch, and only validated events reach the caller.
pub fn drain_osc_events(rx: &crossbeam_channel::Receiver<RawOscMessage>) -> (evs: Vec<GameEvent>)
    ensures
        exists|ms: Seq<MsgV>| evs.deep_view() == osc_batch_events(ms),
        forall|i: int| 0 <= i < evs.deep_view().len() ==> event_wf(#[trigger] evs.deep_view()[i]),
{
    let msgs = drain_channel(rx);
    let evs = translate_osc_batch(&msgs);
    proof {
        lemma_osc_batch_events_wf(msgs.deep_view());
        assert(evs.deep_view() == osc_batch_events(msgs.deep_view()));
    }
    evs
}

/// Drains every decoded frame currently buffered and translates the batch
/// in arrival order: the result is exactly the translation of the received
/// batch, and only validated events reach the caller.
pub fn drain_ws_events(rx: &crossbeam_channel::Receiver<WsFrameData>) -> (evs: Vec<GameEvent>)
    ensures
        exists|fs: Seq<FrameV>| evs.deep_view() == frames_events(fs),
        forall|i: int| 0 <= i < evs.deep_view().len() ==> event_wf(#[trigger] evs.deep_view()[i]),
{
    let frames = drain_channel(rx);
    let evs = translate_ws_frames(&frames);
    proof {
        lemma_frames_events_wf(frames.deep_view());
        assert(evs.deep_view() == frames_events(frames.deep_view()));
    }
    evs
}

} // verus!
