use vstd::prelude::*;

verus! {

/// One of the eight physical controller lines of the console. Turbo variants
/// are deliberately excluded: an auto-fire line would make a recorded log
/// ambiguous about which frames actually saw the button down.
#[derive(Clone, Copy, PartialEq, Eq, Structural, Debug, Hash)]
pub enum Button {
    A,
    B,
    Select,
    Start,
    Up,
    Down,
    Left,
    Right,
}

/// A single edge (press or release) of one button, timestamped by the frame
/// index at which it must take effect. Several events may share a frame.
#[derive(Clone, Copy, PartialEq, Eq, Structural, Debug)]
pub struct ControllerEvent {
    pub btn: Button,
    pub pressed: bool,
    pub frame: u32,
}

/// Every way a run can end early. Each stage fails fast and propagates its
/// error unchanged; there is no local recovery anywhere in the core.
#[derive(Clone, Copy, PartialEq, Eq, Structural, Debug)]
pub enum ReplayError {
    /// The emulation engine rejected the console image before any frame ran.
    InvalidImage,
    /// The engine faulted while advancing a frame; fatal, never retried.
    EmulationFault,
    /// The event-log bytes are truncated or hold an undefined discriminant.
    MalformedLog,
    /// The proving toolchain failed to produce a proof.
    ProvingFailed,
    /// The proof artifact could not be written to durable storage.
    PersistenceFailed,
    /// A committed frame buffer does not have the fixed width x height x 4 shape.
    InvalidBufferShape,
}

/// The only data a proof attests to: the frame index reached and the pixel
/// buffer emitted at the end of a replay. Created exactly once per run.
#[derive(Clone, PartialEq, Eq, Debug)]
pub struct CommittedOutput {
    pub final_frame_index: u32,
    pub frame_buffer: Vec<u8>,
}

/// Stable wire discriminant of a button, shared by host and guest.
pub open spec fn spec_button_code(b: Button) -> u8 {
    match b {
        Button::A => 0,
        Button::B => 1,
        Button::Select => 2,
        Button::Start => 3,
        Button::Up => 4,
        Button::Down => 5,
        Button::Left => 6,
        Button::Right => 7,
    }
}

pub fn button_code(b: Button) -> (r: u8)
    ensures
        r == spec_button_code(b),
{
    match b {
        Button::A => 0,
        Button::B => 1,
        Button::Select => 2,
        Button::Start => 3,
        Button::Up => 4,
        Button::Down => 5,
        Button::Left => 6,
        Button::Right => 7,
    }
}

/// The bit each button occupies in the engine's 8-bit pad state for one port.
/// This is the engine's own assignment (A low bit through Right high bit).
pub open spec fn spec_button_mask(b: Button) -> u8 {
    match b {
        Button::A => 0x01,
        Button::B => 0x02,
        Button::Select => 0x04,
        Button::Start => 0x08,
        Button::Up => 0x10,
        Button::Down => 0x20,
        Button::Left => 0x40,
        Button::Right => 0x80,
    }
}

/// Explicit, total mapping from a log's button to the engine's native bit;
/// no fallback case.
pub fn button_mask(b: Button) -> (r: u8)
    ensures
        r == spec_button_mask(b),
{
    match b {
        Button::A => 0x01,
        Button::B => 0x02,
        Button::Select => 0x04,
        Button::Start => 0x08,
        Button::Up => 0x10,
        Button::Down => 0x20,
        Button::Left => 0x40,
        Button::Right => 0x80,
    }
}

/// The pad state after one edge: set the button's bit on a press, clear it
/// on a release. Setting a state the pad already has is a no-op.
pub open spec fn apply_edge(pad: u8, b: Button, pressed: bool) -> u8 {
    if pressed {
        pad | spec_button_mask(b)
    } else {
        pad & !spec_button_mask(b)
    }
}

} // verus!
