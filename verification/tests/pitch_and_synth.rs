use hotsynth::ctrl;
use hotsynth::pitch::{Accidental, Freq, Letter, Note, Temperament, Tuning};
use hotsynth::program;
use hotsynth::wavetable::Wavetables;

fn a4() -> Note {
    Note { letter: Letter::A, accidental: Accidental::Natural, octave: 4, detune: 0 }
}

#[test]
fn pitch_reference_is_exact() {
    // A4 with no detune sounds at exactly 440 Hz: mantissa 440 in Q32,
    // binary exponent zero.
    let f = a4().freq();
    assert_eq!(f, Freq { mant: 440u64 << 32, oct: 0 });
}

#[test]
fn octave_up_doubles_exactly() {
    let f4 = a4().freq();
    let f5 = Note { octave: 5, ..a4() }.freq();
    assert_eq!(f5.mant, f4.mant);
    assert_eq!(f5.oct, f4.oct + 1);
    // Twelve semitones of detune double just the same.
    let d = a4().detune(1200).freq();
    assert_eq!(d.mant, f4.mant);
    assert_eq!(d.oct, f4.oct + 1);
}

#[test]
fn detune_is_additive_in_cents() {
    let n = a4().detune(30).detune(-10);
    assert_eq!(n.detune, 20);
    assert_eq!(n.freq(), a4().detune(20).freq());
}

#[test]
fn midi_note_numbers_decode() {
    let c = Note::from_midi(60);
    assert!(matches!(c.letter, Letter::C));
    assert!(matches!(c.accidental, Accidental::Natural));
    assert_eq!(c.octave, 3);
    assert_eq!(c.detune, 0);
    let a = Note::from_midi(69);
    assert!(matches!(a.letter, Letter::A));
    assert_eq!(a.octave, 3);
    let fs = Note::from_midi(66);
    assert!(matches!(fs.letter, Letter::F));
    assert!(matches!(fs.accidental, Accidental::Sharp));
}

#[test]
fn default_tuning() {
    let t = Tuning::default();
    assert_eq!(t.a4_freq, 440);
    assert!(matches!(t.temperament, Temperament::Equal));
}

#[test]
fn silence_from_default_instance() {
    // A fresh default instance, given no input events, produces the
    // zero sample at every clock value.
    let bank = Wavetables::new();
    let mut p = program::default();
    for t in [0u64, 1, 1000, 20_833, 1_000_000, 123_456_789] {
        assert_eq!(p.sample(&bank, t), (0, 0));
    }
}

#[test]
fn held_key_makes_sound() {
    let bank = Wavetables::new();
    let mut p = program::default();
    // Raise the volume, press the leftmost key, and let time run: some
    // sample within the first period must be nonzero.
    p.ctrl_in(0, ctrl::Input::Slider(7, 127));
    p.pad_in(0, ((0, 0), 100));
    let mut heard = false;
    for k in 1..=200u64 {
        let (l, r) = p.sample(&bank, k * 100);
        assert_eq!(l, r);
        assert!(l.abs() <= 1_277_952);
        if l != 0 {
            heard = true;
        }
    }
    assert!(heard);
}

#[test]
fn released_key_goes_silent() {
    let bank = Wavetables::new();
    let mut p = program::default();
    p.ctrl_in(0, ctrl::Input::Slider(7, 127));
    p.pad_in(0, ((0, 0), 100));
    let _ = p.sample(&bank, 500);
    p.pad_in(600, ((0, 0), 0));
    assert_eq!(p.sample(&bank, 1000), (0, 0));
}

#[test]
fn knobs_route_to_oscillators() {
    let mut p = program::default();
    p.ctrl_in(0, ctrl::Input::Knob(0, 0, 127)); // fine tune, full up
    assert_eq!(p.osc0.tune, 100);
    p.ctrl_in(0, ctrl::Input::Knob(0, 1, 0)); // fine tune, full down
    assert_eq!(p.osc1.tune, -100);
    p.ctrl_in(0, ctrl::Input::Knob(1, 2, 127)); // coarse tune, full up
    assert_eq!(p.osc2.tune, 1200);
    p.ctrl_in(0, ctrl::Input::Knob(1, 0, 64)); // coarse tune, centered
    assert_eq!(p.osc0.tune, 0);
    p.ctrl_in(0, ctrl::Input::Knob(2, 0, 0)); // phase, full down maps to zero
    assert_eq!(p.osc0.phase, 0);
    p.ctrl_in(0, ctrl::Input::Knob(2, 1, 127)); // phase, full up wraps to zero
    assert_eq!(p.osc1.phase, 0);
    p.ctrl_in(0, ctrl::Input::Slider(0, 0));
    assert_eq!(p.osc0.amp, 0);
    p.ctrl_in(0, ctrl::Input::Slider(7, 127));
    assert_eq!(p.volume, 32768);
    // Events off the map change nothing.
    let tune_before = p.osc0.tune;
    p.ctrl_in(0, ctrl::Input::Knob(0, 5, 127));
    p.ctrl_in(0, ctrl::Input::Slider(4, 9));
    p.ctrl_in(0, ctrl::Input::Up(true));
    assert_eq!(p.osc0.tune, tune_before);
}

#[test]
fn reset_pad_restores_default() {
    let mut p = program::default();
    p.ctrl_in(0, ctrl::Input::Slider(7, 127));
    p.pad_in(0, ((0, 0), 100));
    assert_ne!(p.volume, 328);
    p.pad_in(0, ((7, 8), 1));
    assert_eq!(p.volume, 328);
    assert_eq!(p.piano.notes, vec![0u8; 13]);
}

#[test]
fn pad_output_shows_held_keys() {
    let mut p = program::default();
    let out = p.pad_out(0);
    assert_eq!(out.cells.len(), 81);
    // All thirteen keys inactive: white.
    assert_eq!(out.cells[0], hotsynth::color::Color(127, 127, 127));
    p.pad_in(0, ((0, 0), 99));
    let out = p.pad_out(0);
    assert_eq!(out.cells[0], hotsynth::color::Color(127, 0, 0));
    // The black key at column 1 row 1 sits at cell 10.
    assert_eq!(out.cells[10], hotsynth::color::Color(127, 127, 127));
    // Cells off the keyboard stay dark.
    assert_eq!(out.cells[80], hotsynth::color::Color(0, 0, 0));
}

#[test]
fn wavetables_canonical_values() {
    let bank = Wavetables::new();
    assert_eq!(bank.sine.data.len(), 1025);
    assert_eq!(bank.sine.data[0], 0);
    assert_eq!(bank.sine.data[256], 32768);
    assert_eq!(bank.sine.data[512], 0);
    assert_eq!(bank.sine.data[768], -32768);
    assert_eq!(bank.tri.data[0], 0);
    assert_eq!(bank.tri.data[256], 32768);
    assert_eq!(bank.tri.data[768], -32768);
    assert_eq!(bank.saw.data[0], -32768);
    assert_eq!(bank.saw.data[1024], 32768);
    assert_eq!(bank.square.data[0], 32767);
    assert_eq!(bank.square.data[512], -32767);
    // Lookup interpolates: a quarter period into the sine is its peak.
    assert_eq!(bank.sine.sample(0x4000_0000), 32768);
    assert_eq!(bank.sine.sample(0), 0);
    assert_eq!(bank.saw.sample(0), -32768);
}

#[test]
fn sample_phi_matches_sample_without_modulation_axis() {
    let bank = Wavetables::new();
    for pos in [0u32, 1, 0x2000_0000, 0x4000_0000, 0x8000_0000, 0xFFFF_FFFF] {
        assert_eq!(bank.sine.sample_phi(pos, 0x1234_5678), bank.sine.sample(pos));
        let w = hotsynth::wavetable::Waveform::default();
        assert!(matches!(w, hotsynth::wavetable::Waveform::Sine));
        assert_eq!(w.sample_phi(&bank, pos, 7), w.sample(&bank, pos));
    }
}

#[test]
fn custom_table_lookup_interpolates() {
    let tri = hotsynth::wavetable::Wavetable { data: vec![0, 100, -100, 0] };
    let w = hotsynth::wavetable::Waveform::Raw(tri);
    let bank = Wavetables::new();
    // Three intervals: position one sixth of a period is halfway up the
    // first interval.
    assert_eq!(w.sample(&bank, 0), 0);
    let half_interval = (u32::MAX / 6) + 1;
    assert_eq!(w.sample(&bank, half_interval), 50);
}
