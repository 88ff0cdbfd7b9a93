//! Deterministic replay of a recorded controller-input log against an
//! emulated game console, with a committed output (final frame index and
//! pixel buffer) fit to cross a proof boundary.
//!
//! The crate holds the replay-and-commitment core: the event-log wire codec,
//! the replay driver that applies button edges at exact frame boundaries,
//! the byte framing of what enters and leaves a constrained guest, and the
//! materialization of a committed frame buffer as a viewable image. The
//! emulation engine itself and the proving toolchain are external
//! collaborators reached only through narrow, documented interfaces.

pub mod boundary;
pub mod codec;
pub mod engine;
pub mod events;
pub mod frontend;
pub mod render;
pub mod replay;
