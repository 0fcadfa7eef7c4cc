use hotsynth::codec::{deserialize, serialize, StateMigrationError};
use hotsynth::ctrl;
use hotsynth::host::{is_reload_artifact, Module, SharedState};
use hotsynth::program;
use hotsynth::wavetable::Wavetables;

fn played_instance() -> (Wavetables, program::Program) {
    let bank = Wavetables::new();
    let mut p = program::default();
    p.ctrl_in(0, ctrl::Input::Slider(7, 127));
    p.ctrl_in(0, ctrl::Input::Knob(0, 0, 90));
    p.ctrl_in(0, ctrl::Input::Knob(1, 1, 10));
    p.ctrl_in(0, ctrl::Input::Knob(2, 2, 77));
    p.pad_in(0, ((0, 0), 100));
    p.pad_in(0, ((1, 1), 64));
    let _ = p.sample(&bank, 500);
    let _ = p.sample(&bank, 1000);
    (bank, p)
}

#[test]
fn round_trip_preserves_every_field() {
    let (_bank, p) = played_instance();
    let bytes = serialize(&p);
    let q = deserialize(&bytes).unwrap();
    assert_eq!(q.piano.y, p.piano.y);
    assert_eq!(q.piano.octave, p.piano.octave);
    assert_eq!(q.piano.inactive, p.piano.inactive);
    assert_eq!(q.piano.active, p.piano.active);
    assert_eq!(q.piano.notes, p.piano.notes);
    assert_eq!(q.osc0.amp, p.osc0.amp);
    assert_eq!(q.osc0.phase, p.osc0.phase);
    assert_eq!(q.osc0.tune, p.osc0.tune);
    assert_eq!(q.osc0.phi, p.osc0.phi);
    assert_eq!(q.osc1.tune, p.osc1.tune);
    assert_eq!(q.osc2.phase, p.osc2.phase);
    assert_eq!(q.volume, p.volume);
    assert_eq!(q.t, p.t);
}

#[test]
fn round_trip_preserves_future_samples() {
    // The restored instance, fed the same later inputs and clocks,
    // produces exactly the sample stream of the original.
    let (bank, mut p) = played_instance();
    let bytes = serialize(&p);
    let mut q = deserialize(&bytes).unwrap();
    for k in 1..=300u64 {
        let t = 1000 + k * 137;
        assert_eq!(p.sample(&bank, t), q.sample(&bank, t));
        if k == 100 {
            p.pad_in(t, ((4, 0), 50));
            q.pad_in(t, ((4, 0), 50));
            p.ctrl_in(t, ctrl::Input::Knob(0, 0, 3));
            q.ctrl_in(t, ctrl::Input::Knob(0, 0, 3));
        }
    }
}

#[test]
fn serialized_form_is_stable() {
    let p = program::default();
    let bytes = serialize(&p);
    // 22 records of five header bytes each, plus 96 payload bytes.
    assert_eq!(bytes.len(), 206);
    // First record: tag 1 (row offset), length 1, value 0.
    assert_eq!(&bytes[0..6], &[1, 1, 0, 0, 0, 0]);
}

#[test]
fn corrupted_bytes_restore_to_error() {
    let (_bank, p) = played_instance();
    let bytes = serialize(&p);
    // Truncation anywhere breaks the stream.
    for cut in [1usize, 4, 5, 17, 100, 205] {
        assert!(matches!(deserialize(&bytes[0..cut]), Err(StateMigrationError::Malformed)));
    }
    // An out-of-range field value is rejected.
    let mut bad = bytes.clone();
    bad[5] = 9; // piano row offset above the grid
    assert!(deserialize(&bad).is_err());
    // Garbage is rejected.
    assert!(deserialize(&[0xFF; 40]).is_err());
}

#[test]
fn fallback_is_deterministic() {
    for _ in 0..3 {
        let r1 = deserialize(&[7, 7, 7]);
        let r2 = deserialize(&[7, 7, 7]);
        assert!(r1.is_err());
        assert!(r2.is_err());
    }
}

#[test]
fn unknown_fields_are_skipped_and_missing_ones_default() {
    let (_bank, p) = played_instance();
    let mut bytes = serialize(&p);
    // A record with an unknown tag is ignored: forward compatibility.
    bytes.extend_from_slice(&[99, 2, 0, 0, 0, 0xAB, 0xCD]);
    let q = deserialize(&bytes).unwrap();
    assert_eq!(q.volume, p.volume);
    assert_eq!(q.piano.notes, p.piano.notes);
    // An empty stream restores the default instance.
    let d = deserialize(&[]).unwrap();
    assert_eq!(d.volume, 328);
    assert_eq!(d.piano.octave, 4);
    assert_eq!(d.osc0.amp, 32768);
    // A stream holding only one field leaves the rest at defaults.
    let one = [21u8, 4, 0, 0, 0, 0x00, 0x00, 0x00, 0x80]; // volume = 0
    let v = deserialize(&one).unwrap();
    assert_eq!(v.volume, 0);
    assert_eq!(v.piano.octave, 4);
}

#[test]
fn swap_preserves_state_and_signal() {
    let mut s = SharedState::startup();
    s.instance.ctrl_in(0, ctrl::Input::Slider(7, 127));
    s.instance.pad_in(0, ((0, 0), 100));
    let (before_l, before_r) = s.audio_frame(21);
    assert_eq!(before_l, before_r);
    assert!(before_l.abs() <= 1_277_952);
    let volume = s.instance.volume;
    let notes = s.instance.piano.notes.clone();
    let fallback = s.swap(Module::new());
    assert!(!fallback);
    assert_eq!(s.instance.volume, volume);
    assert_eq!(s.instance.piano.notes, notes);
    let (after_l, after_r) = s.audio_frame(21);
    assert_eq!(after_l, after_r);
    assert!(after_l.abs() <= 1_277_952);
}

#[test]
fn swap_keeps_clock() {
    let mut s = SharedState::startup();
    let _ = s.audio_frame(1000);
    let t = s.t_micros;
    let _ = s.swap(Module::new());
    assert_eq!(s.t_micros, t);
}

#[test]
fn module_restore_of_garbage_fails_but_default_stands_ready() {
    let m = Module::new();
    assert!(m.restore(&[1, 2, 3]).is_err());
    let p = m.construct_default();
    assert_eq!(p.volume, 328);
    m.destroy(p);
}

#[test]
fn reload_artifact_name_matching() {
    assert!(is_reload_artifact(b"libprogram.so"));
    assert!(!is_reload_artifact(b"libprogram.so.tmp"));
    assert!(!is_reload_artifact(b"libprogram.s"));
    assert!(!is_reload_artifact(b""));
    assert!(!is_reload_artifact(b"libprogram_so"));
}
