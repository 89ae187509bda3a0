//! Per-sample update rules of a set of signal processors: control-flow
//! primitives, pattern sequencers, clocks, envelope state machines, ring
//! buffers for delay lines, sample storage and one-shot playback, and a
//! control channel.

pub mod channel;
pub mod choice;
pub mod clock;
pub mod control;
pub mod envelope;
pub mod filters;
pub mod list;
pub mod pattern;
pub mod playback;
pub mod ring;
