use nes_replay::boundary::decode_committed_output;
use nes_replay::boundary::encode_committed_output;
use nes_replay::boundary::prepare_inputs;
use nes_replay::codec::encode;
use nes_replay::engine::FRAME_BUFFER_LEN;
use nes_replay::engine::FRAME_HEIGHT;
use nes_replay::engine::FRAME_WIDTH;
use nes_replay::events::Button;
use nes_replay::events::CommittedOutput;
use nes_replay::events::ControllerEvent;
use nes_replay::events::ReplayError;
use nes_replay::render::render;

fn sample_output() -> CommittedOutput {
    let mut frame_buffer = vec![0u8; FRAME_BUFFER_LEN];
    for (i, b) in frame_buffer.iter_mut().enumerate() {
        *b = (i % 251) as u8;
    }
    CommittedOutput { final_frame_index: 0x0a0b_0c0d, frame_buffer }
}

#[test]
fn committed_output_round_trips_through_the_wire() {
    let out = sample_output();
    let bytes = encode_committed_output(&out);
    assert_eq!(bytes.len(), 4 + FRAME_BUFFER_LEN);
    assert_eq!(&bytes[0..4], &[0x0d, 0x0c, 0x0b, 0x0a]);
    let back = decode_committed_output(&bytes).expect("well-formed output parses");
    assert_eq!(back, out);
}

#[test]
fn committed_output_of_wrong_length_is_rejected() {
    let bytes = vec![0u8; 4 + FRAME_BUFFER_LEN - 1];
    assert_eq!(decode_committed_output(&bytes), Err(ReplayError::InvalidBufferShape));
}

#[test]
fn prepare_inputs_passes_image_through_and_encodes_log() {
    let image = vec![7u8, 8, 9];
    let log = vec![ControllerEvent { btn: Button::Up, pressed: true, frame: 1 }];
    let bundle = prepare_inputs(&image, &log);
    assert_eq!(bundle.image, image);
    assert_eq!(bundle.encoded_log, encode(&log));
}

#[test]
fn render_emits_png_for_a_well_shaped_buffer() {
    let png = render(&sample_output()).expect("well-shaped buffer renders");
    assert_eq!(&png[0..8], &[0x89, b'P', b'N', b'G', 0x0d, 0x0a, 0x1a, 0x0a]);
    let decoded = image::load_from_memory(&png).expect("output is a readable image");
    assert_eq!(decoded.width(), FRAME_WIDTH);
    assert_eq!(decoded.height(), FRAME_HEIGHT);
    assert_eq!(decoded.to_rgba8().into_raw(), sample_output().frame_buffer);
}

#[test]
fn render_rejects_a_misshapen_buffer() {
    let out = CommittedOutput { final_frame_index: 1, frame_buffer: vec![0u8; 17] };
    assert_eq!(render(&out), Err(ReplayError::InvalidBufferShape));
}
