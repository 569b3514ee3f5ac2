//! Keeps the output volumes of a configured set of audio sinks in step.
//!
//! The library is the decision core of a volume-synchronisation daemon: it
//! maintains the registry of tracked sink indices, turns server and
//! filesystem notifications into typed events, dispatches each event to a
//! registry update or a propagation plan, and plans the volume writes that
//! copy a changed sink's volume onto every other tracked sink.  All I/O —
//! the audio-server connection, the configuration file and its watcher —
//! stays outside, handing the library plain values and carrying out the
//! actions it decides on.

pub mod config;
pub mod dispatcher;
pub mod events;
pub mod propagator;
pub mod registry;
