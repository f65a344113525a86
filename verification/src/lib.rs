//! Streams an animated raster image to a remote canvas that speaks the
//! plaintext pixel-drawing protocol (`PX x y rrggbb\n`, one command per pixel).
//!
//! The crate turns a sequence of positioned raster frames into a minimal
//! stream of draw commands: a start frame, per-frame delta frames holding only
//! the pixels that must be redrawn, and per-frame correction lists of stable
//! pixels that are resent opportunistically while waiting out each frame's
//! display delay. A pure scheduler state machine decides, step by step, what
//! the delivery loop writes next and when a run ends.

pub mod codec;
pub mod config;
pub mod frame;
pub mod instructions;
pub mod loader;
pub mod optimizer;
pub mod pixel;
pub mod scheduler;
pub mod shuffling;
