//! The recording side: turning live key edges into an event log.
//!
//! A front-end produces the log the replay core later consumes. The
//! decisions it makes are here, verified: the total key-to-button
//! mapping, the repeat filter, and the recording of each applied edge at
//! the frame it took effect. The browser or window plumbing around it is
//! not part of the core.

use crate::engine::Emulator;
use crate::events::Button;
use crate::events::ControllerEvent;
use crate::events::apply_edge;
use vstd::prelude::*;

verus! {

/// The fixed key-to-button mapping of the recording front-end.
pub open spec fn spec_key_button(key: Seq<char>) -> Option<Button> {
    if key == "Enter"@ {
        Some(Button::Start)
    } else if key == "Shift"@ {
        Some(Button::Select)
    } else if key == "z"@ {
        Some(Button::A)
    } else if key == "x"@ {
        Some(Button::B)
    } else if key == "ArrowUp"@ {
        Some(Button::Up)
    } else if key == "ArrowDown"@ {
        Some(Button::Down)
    } else if key == "ArrowLeft"@ {
        Some(Button::Left)
    } else if key == "ArrowRight"@ {
        Some(Button::Right)
    } else {
        None
    }
}

/// Map a key name to the button it drives, if any.
pub fn button_for_key(key: &str) -> (r: Option<Button>)
    ensures
        r == spec_key_button(key@),
{
    let k = key.to_owned();
    if k == "Enter".to_owned() {
        Some(Button::Start)
    } else if k == "Shift".to_owned() {
        Some(Button::Select)
    } else if k == "z".to_owned() {
        Some(Button::A)
    } else if k == "x".to_owned() {
        Some(Button::B)
    } else if k == "ArrowUp".to_owned() {
        Some(Button::Up)
    } else if k == "ArrowDown".to_owned() {
        Some(Button::Down)
    } else if k == "ArrowLeft".to_owned() {
        Some(Button::Left)
    } else if k == "ArrowRight".to_owned() {
        Some(Button::Right)
    } else {
        None
    }
}

/// The input history a recording session collects, in the order the
/// edges were applied.
pub struct Recorder {
    history: Vec<ControllerEvent>,
}

impl Recorder {
    /// The log recorded so far.
    pub closed spec fn log(self) -> Seq<ControllerEvent> {
        self.history@
    }

    /// A recorder with nothing recorded.
    pub fn new() -> (r: Recorder)
        ensures
            r.log() == Seq::<ControllerEvent>::empty(),
    {
        Recorder { history: Vec::new() }
    }

    /// Record one applied edge, timestamped by the frame it took effect.
    pub fn record(&mut self, btn: Button, pressed: bool, frame: u32)
        ensures
            final(self).log() == old(self).log().push(ControllerEvent { btn, pressed, frame }),
    {
        self.history.push(ControllerEvent { btn, pressed, frame });
    }

    /// The history recorded so far, oldest first.
    pub fn controller_history(&self) -> (r: Vec<ControllerEvent>)
        ensures
            r@ == self.log(),
    {
        let mut out: Vec<ControllerEvent> = Vec::new();
        let n: usize = self.history.len();
        let mut i: usize = 0;
        while i < n
            invariant
                n == self.history@.len(),
                i <= n,
                out@ == self.history@.take(i as int),
            decreases n - i,
        {
            out.push(self.history[i]);
            proof {
                assert(self.history@.take(i + 1) =~= self.history@.take(i as int).push(
                    self.history@[i as int],
                ));
            }
            i += 1;
        }
        proof {
            assert(self.history@.take(n as int) =~= self.history@);
        }
        out
    }

    /// One key edge from the front-end: repeats are ignored, a mapped
    /// key's edge is applied to the emulator's pad and recorded at the
    /// emulator's current frame, and an unmapped key does nothing.
    /// Returns whether the key was handled.
    pub fn handle_event(&mut self, emu: &mut Emulator, key: &str, pressed: bool, repeat: bool) -> (r:
        bool)
        requires
            old(emu).wf(),
        ensures
            final(emu).wf(),
            r == (!repeat && spec_key_button(key@) is Some),
            !r ==> final(self).log() == old(self).log() && *final(emu) == *old(emu),
            r ==> final(emu).image() == old(emu).image(),
            r ==> final(emu).inputs() == old(emu).inputs(),
            r ==> final(emu).frame_count() == old(emu).frame_count(),
            r ==> final(emu).pad() == apply_edge(
                old(emu).pad(),
                spec_key_button(key@)->Some_0,
                pressed,
            ),
            r ==> final(self).log() == old(self).log().push(
                ControllerEvent {
                    btn: spec_key_button(key@)->Some_0,
                    pressed,
                    frame: old(emu).frame_count(),
                },
            ),
    {
        if repeat {
            return false;
        }
        match button_for_key(key) {
            Some(b) => {
                let frame = emu.current_frame_index();
                emu.set_button(b, pressed);
                self.record(b, pressed, frame);
                true
            },
            None => false,
        }
    }
}

} // verus!
