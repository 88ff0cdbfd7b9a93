use nes_replay::engine::Emulator;
use nes_replay::events::Button;
use nes_replay::events::ControllerEvent;
use nes_replay::frontend::Recorder;
use nes_replay::frontend::button_for_key;

fn test_image() -> Vec<u8> {
    let mut rom = vec![0u8; 16 + 16 * 1024 + 8 * 1024];
    rom[0] = b'N';
    rom[1] = b'E';
    rom[2] = b'S';
    rom[3] = 0x1a;
    rom[4] = 1;
    rom[5] = 1;
    rom
}

#[test]
fn key_mapping_covers_all_eight_buttons() {
    assert_eq!(button_for_key("Enter"), Some(Button::Start));
    assert_eq!(button_for_key("Shift"), Some(Button::Select));
    assert_eq!(button_for_key("z"), Some(Button::A));
    assert_eq!(button_for_key("x"), Some(Button::B));
    assert_eq!(button_for_key("ArrowUp"), Some(Button::Up));
    assert_eq!(button_for_key("ArrowDown"), Some(Button::Down));
    assert_eq!(button_for_key("ArrowLeft"), Some(Button::Left));
    assert_eq!(button_for_key("ArrowRight"), Some(Button::Right));
}

#[test]
fn unmapped_keys_drive_nothing() {
    assert_eq!(button_for_key("a"), None);
    assert_eq!(button_for_key(" "), None);
    assert_eq!(button_for_key(""), None);
    assert_eq!(button_for_key("enter"), None);
}

#[test]
fn recorder_keeps_edges_in_order() {
    let mut rec = Recorder::new();
    rec.record(Button::A, true, 3);
    rec.record(Button::A, false, 9);
    let history = rec.controller_history();
    assert_eq!(
        history,
        vec![
            ControllerEvent { btn: Button::A, pressed: true, frame: 3 },
            ControllerEvent { btn: Button::A, pressed: false, frame: 9 },
        ]
    );
}

#[test]
fn handle_event_records_mapped_keys_and_ignores_the_rest() {
    let mut emu = Emulator::load(&test_image()).expect("image loads");
    let mut rec = Recorder::new();
    assert!(rec.handle_event(&mut emu, "Enter", true, false));
    assert!(!rec.handle_event(&mut emu, "Enter", true, true));
    assert!(!rec.handle_event(&mut emu, "q", true, false));
    assert!(rec.handle_event(&mut emu, "Enter", false, false));
    let history = rec.controller_history();
    assert_eq!(
        history,
        vec![
            ControllerEvent { btn: Button::Start, pressed: true, frame: 0 },
            ControllerEvent { btn: Button::Start, pressed: false, frame: 0 },
        ]
    );
}
