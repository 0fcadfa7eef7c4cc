use hotsynth::color::Color;
use hotsynth::ctrl;
use hotsynth::pad;

#[test]
fn grid_mapping_origin() {
    // Logical (0,0) encodes to cell byte 11, and cell byte 11 decodes back.
    assert_eq!(pad::pos_to_byte(0, 0), 11);
    assert_eq!(pad::byte_to_pos(11), (0, 0));
}

#[test]
fn grid_mapping_general() {
    assert_eq!(pad::pos_to_byte(3, 5), 64);
    assert_eq!(pad::byte_to_pos(64), (3, 5));
    assert_eq!(pad::pos_to_byte(8, 8), 99);
    // Coordinates above the grid saturate rather than wrap.
    assert_eq!(pad::pos_to_byte(12, 9), 99);
    assert_eq!(pad::index_to_byte(0), 11);
    assert_eq!(pad::index_to_byte(80), 99);
    assert_eq!(pad::index_to_byte(200), 99);
    assert_eq!(pad::byte_to_index(11), 0);
    assert_eq!(pad::byte_to_index(99), 80);
    for i in 0u8..=80 {
        assert_eq!(pad::byte_to_index(pad::index_to_byte(i)), i);
    }
}

#[test]
fn pad_decode_recognized() {
    assert_eq!(pad::decode(&[0x90, 11, 64]), Some(((0, 0), 64)));
    assert_eq!(pad::decode(&[0xA0, 99, 127]), Some(((8, 8), 127)));
    assert_eq!(pad::decode(&[0xB0, 45, 0]), Some(((4, 3), 0)));
}

#[test]
fn pad_decode_rejects_out_of_range() {
    assert_eq!(pad::decode(&[]), None);
    assert_eq!(pad::decode(&[0x90]), None);
    assert_eq!(pad::decode(&[0x90, 11]), None);
    assert_eq!(pad::decode(&[0x91, 11, 64]), None);
    assert_eq!(pad::decode(&[0x90, 10, 64]), None); // column digit 0
    assert_eq!(pad::decode(&[0x90, 7, 64]), None); // row digit 0
    assert_eq!(pad::decode(&[0x80, 11, 64]), None);
}

#[test]
fn decode_never_panics_short_frames() {
    // Every frame of length zero to two, and a dense sample of length
    // three, goes through both decoders without a fault.
    let thirds = [0u8, 1, 63, 64, 100, 127, 128, 200, 255];
    assert_eq!(pad::decode(&[]), None);
    assert_eq!(ctrl::decode(&[]), None);
    for a in 0u8..=255 {
        let _ = pad::decode(&[a]);
        let _ = ctrl::decode(&[a]);
        for b in 0u8..=255 {
            let _ = pad::decode(&[a, b]);
            let _ = ctrl::decode(&[a, b]);
            for c in thirds {
                let _ = pad::decode(&[a, b, c]);
                let _ = ctrl::decode(&[a, b, c]);
            }
        }
    }
}

#[test]
fn ctrl_decode_recognized() {
    assert_eq!(ctrl::decode(&[0x90, 0x29]), Some(ctrl::Input::Button(0, 1, true)));
    assert_eq!(ctrl::decode(&[0x80, 0x3c]), Some(ctrl::Input::Button(7, 1, false)));
    assert_eq!(ctrl::decode(&[0x90, 0x4a]), Some(ctrl::Input::Button(1, 0, true)));
    assert_eq!(ctrl::decode(&[0x80, 0x59]), Some(ctrl::Input::Button(4, 0, false)));
    assert_eq!(ctrl::decode(&[0x90, 0x69]), Some(ctrl::Input::Select(3, true)));
    assert_eq!(ctrl::decode(&[0x95, 0x6c]), Some(ctrl::Input::Select(0, true)));
    assert_eq!(ctrl::decode(&[0xb0, 0x0d, 5]), Some(ctrl::Input::Knob(2, 0, 5)));
    assert_eq!(ctrl::decode(&[0xb0, 0x1d, 64]), Some(ctrl::Input::Knob(1, 0, 64)));
    assert_eq!(ctrl::decode(&[0xb0, 0x38, 127]), Some(ctrl::Input::Knob(0, 7, 127)));
    assert_eq!(ctrl::decode(&[0xb0, 0x4d, 90]), Some(ctrl::Input::Slider(0, 90)));
    assert_eq!(ctrl::decode(&[0xb0, 0x68, 0x7f]), Some(ctrl::Input::Up(true)));
    assert_eq!(ctrl::decode(&[0xb0, 0x69, 0x00]), Some(ctrl::Input::Down(false)));
    assert_eq!(ctrl::decode(&[0xb0, 0x6a, 0x7f]), Some(ctrl::Input::Left(true)));
    assert_eq!(ctrl::decode(&[0xb0, 0x6b, 0x7f]), Some(ctrl::Input::Right(true)));
}

#[test]
fn ctrl_decode_rejects_out_of_range() {
    assert_eq!(ctrl::decode(&[0x90, 0x28]), None);
    assert_eq!(ctrl::decode(&[0x90, 0x3d]), None);
    assert_eq!(ctrl::decode(&[0xb0, 0x0c, 5]), None);
    assert_eq!(ctrl::decode(&[0xb0, 0x6c, 5]), None);
    assert_eq!(ctrl::decode(&[0xb0, 0x0d]), None); // control change needs a value
    assert_eq!(ctrl::decode(&[0xc0, 0x0d, 5]), None);
}

#[test]
fn ctrl_encode_full_frame_set() {
    let out = ctrl::clear();
    let frames = ctrl::encode(&out);
    assert_eq!(frames.len(), 48);
    // First knob indicator goes to slot 16 (rows are reversed on the wire).
    assert_eq!(frames[0], vec![0xf0, 0x00, 0x20, 0x29, 0x02, 0x11, 0x78, 0x00, 16, 0b001100, 0xf7]);
    // Ninth knob (start of the middle row) keeps its own index.
    assert_eq!(frames[8][8], 8);
    // First button indicator goes to slot 0x18 + 8.
    assert_eq!(frames[24][8], 0x18 + 8);
    // Arrows.
    assert_eq!(frames[40][8], 0x2c);
    assert_eq!(frames[43][8], 0x2f);
    // Selects carry a plain brightness byte.
    assert_eq!(frames[44], vec![0xf0, 0x00, 0x20, 0x29, 0x02, 0x11, 0x78, 0x00, 0x28, 0, 0xf7]);
}

#[test]
fn ctrl_color_masks() {
    assert_eq!(ctrl::Color::Off.mask(), 0b001100);
    assert_eq!(ctrl::Color::Red.mask(), 0b001101);
    assert_eq!(ctrl::Color::Orange.mask(), 0b111111);
    assert_eq!(ctrl::Color::Yellow.mask(), 0b111110);
    assert_eq!(ctrl::Color::Green.mask(), 0b111100);
}

#[test]
fn pad_encode_full_frame() {
    let mut out = pad::clear();
    out.cells[0] = Color(200, 5, 6); // channels clamp to the MIDI range
    let frames = pad::encode(&out);
    assert_eq!(frames.len(), 1);
    let f = &frames[0];
    assert_eq!(f.len(), 413);
    assert_eq!(&f[0..7], &[0xF0, 0x00, 0x20, 0x29, 0x02, 0x0C, 0x03]);
    assert_eq!(&f[7..12], &[0x03, 11, 127, 5, 6]);
    assert_eq!(&f[12..17], &[0x03, 12, 0, 0, 0]);
    assert_eq!(f[412], 0xF7);
}

#[test]
fn pad_setup_handshake() {
    let frames = pad::setup_frames();
    assert_eq!(frames.len(), 4);
    assert_eq!(frames[0], vec![0xF0, 0x00, 0x20, 0x29, 0x02, 0x0C, 0x0E, 0x01, 0xF7]);
    assert_eq!(frames[1], vec![0xF0, 0x00, 0x20, 0x29, 0x02, 0x0C, 0x04, 0x01, 0x00, 0xF7]);
    assert_eq!(frames[2], vec![0xF0, 0x00, 0x20, 0x29, 0x02, 0x0C, 0x0B, 0x00, 0x01, 0xF7]);
    assert_eq!(frames[3], vec![0xF0, 0x00, 0x20, 0x29, 0x02, 0x0C, 0x08, 0x7F, 0xF7]);
}

#[test]
fn pad_codec_round_trip_positions() {
    for row in 0i8..=8 {
        for col in 0i8..=8 {
            let b = pad::pos_to_byte(col, row);
            assert_eq!(pad::byte_to_pos(b), (col, row));
            let decoded = pad::decode(&[0x90, b, 77]).unwrap();
            assert_eq!(decoded, ((col, row), 77));
        }
    }
}
