use nes_replay::codec::decode;
use nes_replay::codec::encode;
use nes_replay::events::Button;
use nes_replay::events::ControllerEvent;
use nes_replay::events::ReplayError;
use nes_replay::events::button_code;
use nes_replay::events::button_mask;

fn ev(btn: Button, pressed: bool, frame: u32) -> ControllerEvent {
    ControllerEvent { btn, pressed, frame }
}

#[test]
fn round_trip_empty_log() {
    let log: Vec<ControllerEvent> = Vec::new();
    let bytes = encode(&log);
    assert_eq!(bytes.len(), 0);
    let back = decode(&bytes).expect("empty stream decodes");
    assert_eq!(back, log);
}

#[test]
fn round_trip_all_buttons() {
    let buttons = [
        Button::A,
        Button::B,
        Button::Select,
        Button::Start,
        Button::Up,
        Button::Down,
        Button::Left,
        Button::Right,
    ];
    let mut log: Vec<ControllerEvent> = Vec::new();
    for (i, b) in buttons.iter().enumerate() {
        log.push(ev(*b, i % 2 == 0, i as u32 * 7));
        log.push(ev(*b, i % 2 != 0, u32::MAX - 1));
    }
    let bytes = encode(&log);
    assert_eq!(bytes.len(), 6 * log.len());
    let back = decode(&bytes).expect("well-formed stream decodes");
    assert_eq!(back, log);
}

#[test]
fn event_wire_layout_is_exact() {
    let log = vec![ev(Button::B, true, 0x0102_0304)];
    let bytes = encode(&log);
    assert_eq!(bytes, vec![1, 1, 0x04, 0x03, 0x02, 0x01]);
}

#[test]
fn truncated_stream_is_malformed() {
    let log = vec![ev(Button::Start, true, 9)];
    let mut bytes = encode(&log);
    bytes.pop();
    assert_eq!(decode(&bytes), Err(ReplayError::MalformedLog));
}

#[test]
fn undefined_button_discriminant_is_malformed() {
    let bytes = vec![8, 1, 0, 0, 0, 0];
    assert_eq!(decode(&bytes), Err(ReplayError::MalformedLog));
}

#[test]
fn undefined_pressed_byte_is_malformed() {
    let bytes = vec![0, 2, 0, 0, 0, 0];
    assert_eq!(decode(&bytes), Err(ReplayError::MalformedLog));
}

#[test]
fn button_codes_cover_all_eight() {
    assert_eq!(button_code(Button::A), 0);
    assert_eq!(button_code(Button::B), 1);
    assert_eq!(button_code(Button::Select), 2);
    assert_eq!(button_code(Button::Start), 3);
    assert_eq!(button_code(Button::Up), 4);
    assert_eq!(button_code(Button::Down), 5);
    assert_eq!(button_code(Button::Left), 6);
    assert_eq!(button_code(Button::Right), 7);
}

#[test]
fn button_masks_cover_all_eight() {
    assert_eq!(button_mask(Button::A), 0x01);
    assert_eq!(button_mask(Button::B), 0x02);
    assert_eq!(button_mask(Button::Select), 0x04);
    assert_eq!(button_mask(Button::Start), 0x08);
    assert_eq!(button_mask(Button::Up), 0x10);
    assert_eq!(button_mask(Button::Down), 0x20);
    assert_eq!(button_mask(Button::Left), 0x40);
    assert_eq!(button_mask(Button::Right), 0x80);
}
