//! The boundary to the external emulation engine.
//!
//! The engine (tetanes-core's `ControlDeck`) is an opaque, deterministic
//! machine: once a console image is loaded with all-zero RAM and no
//! filesystem-backed cartridge RAM, everything it does is a function of the
//! image bytes and of the port-one pad state held during each frame it has
//! advanced. The spec names below record exactly that view: `deck_image`,
//! `deck_inputs` and `deck_buttons` give an abstract reading of a deck's
//! state, and `engine_accepts` / `engine_advance_ok` /
//! `engine_frame_buffer` name what its operations return as functions of
//! that reading. Every call into the engine goes through one of the
//! trusted wrappers here; `Emulator` wraps a deck together with verified
//! mirrors of its frame count and pad state so that the replay driver can
//! reason about it.

use crate::events::Button;
use crate::events::ReplayError;
use crate::events::apply_edge;
use crate::events::button_mask;
use crate::events::spec_button_mask;
use tetanes_core::control_deck::Config;
use tetanes_core::control_deck::ControlDeck;
use tetanes_core::input::JoypadBtnState;
use tetanes_core::input::Player;
use tetanes_core::memory::RamState;
use vstd::prelude::*;

verus! {

/// Width of the engine's output frame, in pixels.
pub const FRAME_WIDTH: u32 = 256;

/// Height of the engine's output frame, in pixels.
pub const FRAME_HEIGHT: u32 = 240;

/// Length of the engine's RGBA output frame buffer, in bytes.
pub const FRAME_BUFFER_LEN: usize = 256 * 240 * 4;

#[verifier::external_type_specification]
#[verifier::external_body]
pub struct ExControlDeck(ControlDeck);

/// The console image a deck was loaded with.
pub uninterp spec fn deck_image(d: ControlDeck) -> Seq<u8>;

/// The port-one pad state the deck held during each frame it has advanced
/// since its image was loaded, oldest first.
pub uninterp spec fn deck_inputs(d: ControlDeck) -> Seq<u8>;

/// The deck's current port-one button bits.
pub uninterp spec fn deck_buttons(d: ControlDeck) -> u16;

/// Whether the engine accepts an image as loadable. Loading is
/// deterministic under the fixed configuration used here, so this is a
/// function of the image bytes alone.
pub uninterp spec fn engine_accepts(image: Seq<u8>) -> bool;

/// Whether the engine can advance the last frame of the given input
/// history without faulting, all earlier frames having succeeded.
pub uninterp spec fn engine_advance_ok(image: Seq<u8>, inputs: Seq<u8>) -> bool;

/// The RGBA frame buffer the engine shows after running the given input
/// history from a fresh load of the image.
pub uninterp spec fn engine_frame_buffer(image: Seq<u8>, inputs: Seq<u8>) -> Seq<u8>;

/// Relies on `ControlDeck::with_config` and `ControlDeck::load_rom`.
/// The configuration pins every source of nondeterminism the engine
/// offers: RAM powers up all zeros, no battery-backed RAM directory is
/// set so the deck never touches the filesystem, and concurrent D-pad
/// input is allowed so that `set_button` is a plain bit set with no
/// opposite-direction rule. Loading hard-resets the deck, so a fresh
/// load has frame number zero and an empty pad.
#[verifier::external_body]
fn deck_load(image: &[u8]) -> (r: Option<ControlDeck>)
    ensures
        r is Some <==> engine_accepts(image@),
        r is Some ==> deck_image(r->0) == image@,
        r is Some ==> deck_inputs(r->0) == Seq::<u8>::empty(),
        r is Some ==> deck_buttons(r->0) == 0,
{
    let mut deck = ControlDeck::with_config(
        Config::default()
            .with_ram_state(RamState::AllZeros)
            .with_concurrent_dpad(true)
            .with_sram_dir(None),
    );
    let mut bytes: &[u8] = image;
    match deck.load_rom("image", &mut bytes) {
        Ok(_) => Some(deck),
        Err(_) => None,
    }
}

/// Relies on `ControlDeck::clock_frame`: at the default one-to-one speed
/// with run-ahead off it clocks exactly one frame, incrementing the frame
/// number by one, and reads but never changes the pad bits (the turbo
/// bits, which clocking would toggle, are excluded by the precondition).
/// It fails exactly when the CPU faults, which is deterministic in the
/// image and input history.
#[verifier::external_body]
fn deck_clock_frame(d: &mut ControlDeck) -> (r: bool)
    requires
        deck_buttons(*old(d)) < 0x100,
        deck_inputs(*old(d)).len() < 0xffff_ffff,
    ensures
        r <==> engine_advance_ok(
            deck_image(*old(d)),
            deck_inputs(*old(d)).push(deck_buttons(*old(d)) as u8),
        ),
        r ==> deck_image(*final(d)) == deck_image(*old(d)),
        r ==> deck_inputs(*final(d)) == deck_inputs(*old(d)).push(deck_buttons(*old(d)) as u8),
        r ==> deck_buttons(*final(d)) == deck_buttons(*old(d)),
{
    d.clock_frame().is_ok()
}

/// Relies on `Joypad::set_button`, a bitflags set or clear of the given
/// bit (the deck is configured with concurrent D-pad input, so no other
/// bit is touched). Pressing or releasing a button changes no frame and
/// not the loaded image.
#[verifier::external_body]
fn deck_set_button(d: &mut ControlDeck, mask: u8, pressed: bool)
    requires
        exists|b: Button| spec_button_mask(b) == mask,
    ensures
        deck_image(*final(d)) == deck_image(*old(d)),
        deck_inputs(*final(d)) == deck_inputs(*old(d)),
        deck_buttons(*final(d)) == (if pressed {
            deck_buttons(*old(d)) | mask as u16
        } else {
            deck_buttons(*old(d)) & !(mask as u16)
        }),
{
    d.joypad_mut(Player::One).set_button(JoypadBtnState::from_bits_truncate(mask as u16), pressed);
}

/// Relies on `ControlDeck::frame_number`: the number of frames advanced
/// since the image was loaded (loading hard-resets the counter to zero,
/// and the counter only wraps past the bound the precondition excludes).
#[verifier::external_body]
fn deck_frame_number(d: &ControlDeck) -> (r: u32)
    requires
        deck_inputs(*d).len() <= 0xffff_ffff,
    ensures
        r as int == deck_inputs(*d).len(),
{
    d.frame_number()
}

/// Relies on `ControlDeck::frame_buffer`: the engine's RGBA view of the
/// frame the most recent advance produced, a fixed 256 x 240 x 4 bytes,
/// deterministic in the image and input history. It caches the filtered
/// frame inside the deck, which changes none of the state the spec names
/// read.
#[verifier::external_body]
fn deck_read_frame_buffer(d: &mut ControlDeck) -> (r: Vec<u8>)
    ensures
        deck_image(*final(d)) == deck_image(*old(d)),
        deck_inputs(*final(d)) == deck_inputs(*old(d)),
        deck_buttons(*final(d)) == deck_buttons(*old(d)),
        r@ == engine_frame_buffer(deck_image(*old(d)), deck_inputs(*old(d))),
        r@.len() == FRAME_BUFFER_LEN as int,
{
    d.frame_buffer().to_vec()
}

/// A loaded console with verified mirrors of the engine state the replay
/// driver steers by: the frame count and the port-one pad bits.
pub struct Emulator {
    deck: ControlDeck,
    frame: u32,
    buttons: u8,
}

impl Emulator {
    /// The mirrors agree with the deck, and the deck holds an accepted
    /// image.
    pub closed spec fn wf(self) -> bool {
        &&& engine_accepts(deck_image(self.deck))
        &&& self.frame as int == deck_inputs(self.deck).len()
        &&& self.buttons as u16 == deck_buttons(self.deck)
    }

    /// The image this emulator was loaded with.
    pub closed spec fn image(self) -> Seq<u8> {
        deck_image(self.deck)
    }

    /// The pad state held during each frame advanced so far.
    pub closed spec fn inputs(self) -> Seq<u8> {
        deck_inputs(self.deck)
    }

    /// The current port-one pad bits.
    pub closed spec fn pad(self) -> u8 {
        self.buttons
    }

    /// Load a console image into a fresh engine. Fails with
    /// `InvalidImage` exactly when the engine rejects the image, before
    /// any frame is advanced.
    pub fn load(image: &[u8]) -> (r: Result<Emulator, ReplayError>)
        ensures
            r is Ok <==> engine_accepts(image@),
            r is Ok ==> r->Ok_0.wf(),
            r is Ok ==> r->Ok_0.image() == image@,
            r is Ok ==> r->Ok_0.inputs() == Seq::<u8>::empty(),
            r is Ok ==> r->Ok_0.pad() == 0 && r->Ok_0.frame_count() == 0,
            r is Err ==> r->Err_0 == ReplayError::InvalidImage,
    {
        match deck_load(image) {
            Some(deck) => Ok(Emulator { deck, frame: 0, buttons: 0 }),
            None => Err(ReplayError::InvalidImage),
        }
    }

    /// The number of frames advanced since load, as the driver tracks it.
    pub closed spec fn frame_count(self) -> u32 {
        self.frame
    }

    /// Advance the emulation by exactly one frame with the current pad
    /// state. Fails with `EmulationFault` exactly when the engine faults,
    /// which aborts the run.
    pub fn advance_frame(&mut self) -> (r: Result<(), ReplayError>)
        requires
            old(self).wf(),
            old(self).inputs().len() < 0xffff_ffff,
        ensures
            r is Ok <==> engine_advance_ok(
                old(self).image(),
                old(self).inputs().push(old(self).pad()),
            ),
            r is Ok ==> final(self).wf(),
            r is Ok ==> final(self).image() == old(self).image(),
            r is Ok ==> final(self).inputs() == old(self).inputs().push(old(self).pad()),
            r is Ok ==> final(self).pad() == old(self).pad(),
            r is Ok ==> final(self).frame_count() == old(self).frame_count() + 1,
            r is Err ==> r->Err_0 == ReplayError::EmulationFault,
    {
        if deck_clock_frame(&mut self.deck) {
            self.frame = self.frame + 1;
            Ok(())
        } else {
            Err(ReplayError::EmulationFault)
        }
    }

    /// Press or release one button on port one. Idempotent per state:
    /// setting a state the pad already holds changes nothing.
    pub fn set_button(&mut self, b: Button, pressed: bool)
        requires
            old(self).wf(),
        ensures
            final(self).wf(),
            final(self).image() == old(self).image(),
            final(self).inputs() == old(self).inputs(),
            final(self).frame_count() == old(self).frame_count(),
            final(self).pad() == apply_edge(old(self).pad(), b, pressed),
    {
        let mask = button_mask(b);
        proof {
            assert(spec_button_mask(b) == mask);
        }
        deck_set_button(&mut self.deck, mask, pressed);
        let bu = self.buttons;
        if pressed {
            self.buttons = bu | mask;
            proof {
                assert((bu | mask) as u16 == (bu as u16 | mask as u16)) by (bit_vector);
            }
        } else {
            self.buttons = bu & !mask;
            proof {
                assert((bu & !mask) as u16 == (bu as u16 & !(mask as u16))) by (bit_vector);
            }
        }
    }

    /// The engine's own frame counter, which the mirrors track exactly.
    pub fn current_frame_index(&self) -> (r: u32)
        requires
            self.wf(),
        ensures
            r as int == self.inputs().len(),
            r == self.frame_count(),
    {
        deck_frame_number(&self.deck)
    }

    /// The RGBA frame buffer the most recent advance produced.
    pub fn read_frame_buffer(&mut self) -> (r: Vec<u8>)
        requires
            old(self).wf(),
        ensures
            final(self).wf(),
            final(self).image() == old(self).image(),
            final(self).inputs() == old(self).inputs(),
            final(self).pad() == old(self).pad(),
            final(self).frame_count() == old(self).frame_count(),
            r@ == engine_frame_buffer(old(self).image(), old(self).inputs()),
            r@.len() == FRAME_BUFFER_LEN as int,
    {
        deck_read_frame_buffer(&mut self.deck)
    }
}

} // verus!
