use nes_replay::engine::FRAME_BUFFER_LEN;
use nes_replay::engine::Emulator;
use nes_replay::events::Button;
use nes_replay::events::ControllerEvent;
use nes_replay::events::ReplayError;
use nes_replay::replay::replay;

/// A minimal mapper-0 console image: an iNES header, one 16 KiB PRG bank
/// and one 8 KiB CHR bank, all zero. The zeroed reset vector lands the
/// CPU in zeroed RAM, where every opcode is BRK - valid, so frames clock
/// forever without a fault.
fn minimal_image() -> Vec<u8> {
    let mut rom = vec![0u8; 16 + 16 * 1024 + 8 * 1024];
    rom[0] = b'N';
    rom[1] = b'E';
    rom[2] = b'S';
    rom[3] = 0x1a;
    rom[4] = 1;
    rom[5] = 1;
    rom
}

fn ev(btn: Button, pressed: bool, frame: u32) -> ControllerEvent {
    ControllerEvent { btn, pressed, frame }
}

#[test]
fn empty_log_advances_exactly_one_frame() {
    let out = replay(&minimal_image(), &Vec::new()).expect("replay succeeds");
    assert_eq!(out.final_frame_index, 1);
    assert_eq!(out.frame_buffer.len(), FRAME_BUFFER_LEN);
}

#[test]
fn replay_is_deterministic() {
    let image = minimal_image();
    let log = vec![
        ev(Button::A, true, 2),
        ev(Button::Right, true, 2),
        ev(Button::A, false, 4),
        ev(Button::Right, false, 5),
    ];
    let out1 = replay(&image, &log).expect("first run succeeds");
    let out2 = replay(&image, &log).expect("second run succeeds");
    assert_eq!(out1, out2);
}

#[test]
fn start_press_release_scenario_commits_frame_twelve() {
    let image = minimal_image();
    let log = vec![ev(Button::Start, true, 10), ev(Button::Start, false, 11)];
    let out = replay(&image, &log).expect("replay succeeds");
    assert_eq!(out.final_frame_index, 12);
    assert_eq!(out.frame_buffer.len(), FRAME_BUFFER_LEN);
}

#[test]
fn late_event_is_folded_without_frame_advance() {
    let image = minimal_image();
    let log = vec![ev(Button::A, true, 5), ev(Button::B, true, 2)];
    let out = replay(&image, &log).expect("replay succeeds");
    assert_eq!(out.final_frame_index, 6);
}

#[test]
fn same_frame_events_commit_identically_in_either_order() {
    let image = minimal_image();
    let log_ab = vec![ev(Button::A, true, 3), ev(Button::B, true, 3)];
    let log_ba = vec![ev(Button::B, true, 3), ev(Button::A, true, 3)];
    let out_ab = replay(&image, &log_ab).expect("first order succeeds");
    let out_ba = replay(&image, &log_ba).expect("second order succeeds");
    assert_eq!(out_ab, out_ba);
    assert_eq!(out_ab.final_frame_index, 4);
}

#[test]
fn rejected_image_fails_before_any_frame() {
    let garbage = vec![0u8; 64];
    assert_eq!(replay(&garbage, &Vec::new()), Err(ReplayError::InvalidImage));
}

#[test]
fn emulator_loads_and_reports_frame_zero() {
    let emu = Emulator::load(&minimal_image()).expect("image loads");
    assert_eq!(emu.current_frame_index(), 0);
}

#[test]
fn emulator_rejects_garbage() {
    assert!(matches!(Emulator::load(&[0u8; 4]), Err(ReplayError::InvalidImage)));
}
