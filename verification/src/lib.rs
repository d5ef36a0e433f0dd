//! Ingestion pipeline that turns external sensor/gesture wire traffic into
//! validated, strongly-typed application events.
//!
//! Two transports feed the pipeline: OSC 1.0 packets received over UDP and
//! JSON frames received over WebSocket connections. Each transport has a
//! translator that maps decoded wire data into the canonical
//! [`events::GameEvent`] stream, dropping anything that violates the event
//! invariants (negative hand ids or counts, non-finite pinch distances,
//! empty gesture or object names). The consuming side drains each
//! transport's channel to exhaustion once per tick ([`channel`]), and
//! aggregate statistics over the canonical stream live in
//! [`stats::GameEventStats`].
//!
//! Single-precision wire values are carried as raw bit patterns
//! ([`fbits::R32`]); the only decision the pipeline ever takes on them is
//! the bit-level finiteness test.

pub mod channel;
pub mod events;
pub mod fbits;
pub mod osc;
pub mod stats;
pub mod ws;
