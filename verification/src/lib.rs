//! A per-guild sequential audio playback queue.
//!
//! The library models one playback queue per guild: a strictly ordered
//! backlog of track handles in which only the head entry is ever active.
//! The queue advances exactly when the active track's completion event is
//! delivered, tolerating races with `skip`, `stop` and `dequeue` by
//! checking the completed track's identity against the current head.
//!
//! Track handles are modelled as plain values carrying the identity,
//! play state, liveness and metadata that the queue logic reads; the
//! audio decoding and transport behind them belong to an external
//! playback subsystem and are out of scope here.

pub mod display;
pub mod queue;
pub mod registry;
pub mod track;
