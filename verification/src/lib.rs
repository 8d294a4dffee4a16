//! Remaps keyboard and mouse input into a virtual game-controller report.
//!
//! The library holds the input translation pipeline: the dispatcher's
//! activation state machine and per-device press-state tracking, the decode
//! of raw mouse button words, the bind-resolution table, the mouse-motion
//! sample buffer with its smoothing window, and the digital movement
//! mapping. Reading raw strokes from the capture driver, re-injecting
//! strokes, and submitting reports to the virtual-controller sink are left
//! to the surrounding program, which hands this library plain values.

pub mod binds;
pub mod dispatcher;
pub mod handler;
pub mod samples;
pub mod state_table;
pub mod types;
