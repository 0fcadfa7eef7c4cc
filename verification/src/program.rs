//! The program instance: the musical state behind the module operation
//! contract. It routes pad events into the piano, control events into the
//! three oscillators and the master volume, paints the pad output, and
//! mixes one audio sample per call.
//!
//! All state is plain integers: gains and the volume in Q15, detunes in
//! cents, phase offsets in Q0.32, the clock in microseconds.

use vstd::prelude::*;
use vstd::arithmetic::div_mod::lemma_div_is_ordered;
use crate::ctrl;
use crate::osc::{spec_osc_out, spec_osc_phi, Osc};
use crate::pad;
use crate::piano::{spec_active_notes, spec_key_index, Piano};
use crate::pitch::Note;
use crate::wavetable::{Waveform, Wavetables};

verus! {

/// The whole instance state.
pub struct Program {
    pub piano: Piano,
    pub osc0: Osc,
    pub osc1: Osc,
    pub osc2: Osc,
    /// Master volume in Q15, 0 ..= 32768.
    pub volume: i32,
    /// The clock of the last sample call, in microseconds.
    pub t: u64,
}

impl Program {
    /// Usable instance state.
    pub open spec fn wf(&self) -> bool {
        &&& self.piano.wf()
        &&& self.osc0.wf()
        &&& self.osc1.wf()
        &&& self.osc2.wf()
        &&& 0 <= self.volume <= 32768
    }

    /// The freshly constructed state: a sine, a triangle and a sawtooth
    /// oscillator at unity gain over a silent default piano, the master
    /// volume at one percent, the clock at zero.
    pub open spec fn is_default(&self) -> bool {
        &&& self.piano.y == 0
        &&& self.piano.octave == 4
        &&& self.piano.inactive == (crate::color::Color(127, 127, 127))
        &&& self.piano.active == (crate::color::Color(127, 0, 0))
        &&& self.piano.notes@ =~= seq![0u8, 0, 0, 0, 0, 0, 0, 0, 0, 0, 0, 0, 0]
        &&& self.osc0 == (Osc { waveform: Waveform::Sine, amp: 32768, phase: 0u32, tune: 0, phi: 0u64 })
        &&& self.osc1 == (Osc { waveform: Waveform::Tri, amp: 32768, phase: 0u32, tune: 0, phi: 0u64 })
        &&& self.osc2 == (Osc { waveform: Waveform::Saw, amp: 32768, phase: 0u32, tune: 0, phi: 0u64 })
        &&& self.volume == 328
        &&& self.t == 0u64
    }
}

impl Default for Program {
    /// Construct the default instance.
    fn default() -> (r: Self)
        ensures
            r.is_default(),
            r.wf(),
    {
        let osc0 = Osc { waveform: Waveform::Sine, amp: 32768, phase: 0, tune: 0, phi: 0 };
        let osc1 = Osc { waveform: Waveform::Tri, amp: 32768, phase: 0, tune: 0, phi: 0 };
        let osc2 = Osc { waveform: Waveform::Saw, amp: 32768, phase: 0, tune: 0, phi: 0 };
        Program { piano: Piano::default(), osc0, osc1, osc2, volume: 328, t: 0 }
    }
}

/// Construct the default instance: the module's construct-default entry
/// point.
pub fn default() -> (r: Program)
    ensures
        r.is_default(),
        r.wf(),
{
    Program::default()
}

/// A value byte saturated to the MIDI data range.
pub open spec fn spec_data7(v: u8) -> u8 {
    if v > 0x7F {
        0x7Fu8
    } else {
        v
    }
}

/// A fine tune knob position as cents: the raw byte diverges around
/// `0x40`, spanning one semitone down to one semitone up. Bytes above the
/// MIDI data range saturate.
pub open spec fn spec_fine_cents(v: u8) -> int {
    let v = spec_data7(v);
    if v >= 0x40 {
        (v - 0x40) * 100 / 63
    } else {
        v * 100 / 64 - 100
    }
}

/// A coarse tune knob position as cents: an octave down to an octave up.
pub open spec fn spec_coarse_cents(v: u8) -> int {
    let v = spec_data7(v);
    if v >= 0x40 {
        (v - 0x40) * 1200 / 63
    } else {
        v * 1200 / 64 - 1200
    }
}

/// A phase knob position as a Q0.32 slice of one period: the diverging
/// span is mapped onto the whole period, wrapping at full deflection.
pub open spec fn spec_phase_bits(v: u8) -> u32 {
    let v = spec_data7(v);
    if v >= 0x40 {
        (((v - 1) * 0x1_0000_0000 / 126) % 0x1_0000_0000) as u32
    } else {
        (v * 0x1_0000_0000 / 128) as u32
    }
}

/// A slider position as a Q15 gain: `0x7F` is unity.
pub open spec fn spec_q15(v: u8) -> int {
    spec_data7(v) * 32768 / 127
}

fn fine_cents(v: u8) -> (r: i32)
    ensures
        r == spec_fine_cents(v),
        -100 <= r <= 100,
{
    let v: u8 = if v > 0x7F { 0x7F } else { v };
    if v >= 0x40 {
        proof {
            lemma_div_is_ordered((v - 0x40) * 100, 6300, 63);
            lemma_div_is_ordered(0, (v - 0x40) * 100, 63);
        }
        ((v - 0x40) as i32 * 100) / 63
    } else {
        proof {
            lemma_div_is_ordered(v * 100, 6300, 64);
            lemma_div_is_ordered(0, v * 100, 64);
        }
        (v as i32 * 100) / 64 - 100
    }
}

fn coarse_cents(v: u8) -> (r: i32)
    ensures
        r == spec_coarse_cents(v),
        -1200 <= r <= 1200,
{
    let v: u8 = if v > 0x7F { 0x7F } else { v };
    if v >= 0x40 {
        proof {
            lemma_div_is_ordered((v - 0x40) * 1200, 75600, 63);
            lemma_div_is_ordered(0, (v - 0x40) * 1200, 63);
        }
        ((v - 0x40) as i32 * 1200) / 63
    } else {
        proof {
            lemma_div_is_ordered(v * 1200, 75600, 64);
            lemma_div_is_ordered(0, v * 1200, 64);
        }
        (v as i32 * 1200) / 64 - 1200
    }
}

fn phase_bits(v: u8) -> (r: u32)
    ensures
        r == spec_phase_bits(v),
{
    let v: u8 = if v > 0x7F { 0x7F } else { v };
    if v >= 0x40 {
        (((v - 1) as u64 * 0x1_0000_0000 / 126) % 0x1_0000_0000) as u32
    } else {
        ((v as u64) * 0x1_0000_0000 / 128) as u32
    }
}

fn q15(v: u8) -> (r: i32)
    ensures
        r == spec_q15(v),
        0 <= r <= 32768,
{
    let v: u8 = if v > 0x7F { 0x7F } else { v };
    proof {
        lemma_div_is_ordered(v * 32768, 4161536, 127);
        lemma_div_is_ordered(0, v * 32768, 127);
    }
    ((v as i32) * 32768) / 127
}

/// An oscillator with its detune replaced.
pub open spec fn osc_with_tune(o: Osc, tune: int) -> Osc {
    Osc { waveform: o.waveform, amp: o.amp, phase: o.phase, tune: tune as i32, phi: o.phi }
}

/// An oscillator with its phase offset replaced.
pub open spec fn osc_with_phase(o: Osc, phase: u32) -> Osc {
    Osc { waveform: o.waveform, amp: o.amp, phase, tune: o.tune, phi: o.phi }
}

/// An oscillator with its gain replaced.
pub open spec fn osc_with_amp(o: Osc, amp: int) -> Osc {
    Osc { waveform: o.waveform, amp: amp as i32, phase: o.phase, tune: o.tune, phi: o.phi }
}

/// An oscillator with its accumulator replaced.
pub open spec fn osc_with_phi(o: Osc, phi: u64) -> Osc {
    Osc { waveform: o.waveform, amp: o.amp, phase: o.phase, tune: o.tune, phi }
}

/// A program with one oscillator replaced.
pub open spec fn with_osc(p: Program, which: int, o: Osc) -> Program {
    Program {
        piano: p.piano,
        osc0: if which == 0 { o } else { p.osc0 },
        osc1: if which == 1 { o } else { p.osc1 },
        osc2: if which == 2 { o } else { p.osc2 },
        volume: p.volume,
        t: p.t,
    }
}

/// What a control event does to the program: the top knob row fine-tunes
/// an oscillator, the middle row coarse-tunes it, the bottom row sets its
/// phase offset; the first three sliders set the oscillator gains and the
/// last one the master volume. Everything else changes nothing.
pub open spec fn spec_ctrl_in(p: Program, input: ctrl::Input) -> Program {
    match input {
        ctrl::Input::Knob(row, col, v) => {
            if row == 0 && col == 0 {
                with_osc(p, 0, osc_with_tune(p.osc0, spec_fine_cents(v)))
            } else if row == 0 && col == 1 {
                with_osc(p, 1, osc_with_tune(p.osc1, spec_fine_cents(v)))
            } else if row == 0 && col == 2 {
                with_osc(p, 2, osc_with_tune(p.osc2, spec_fine_cents(v)))
            } else if row == 1 && col == 0 {
                with_osc(p, 0, osc_with_tune(p.osc0, spec_coarse_cents(v)))
            } else if row == 1 && col == 1 {
                with_osc(p, 1, osc_with_tune(p.osc1, spec_coarse_cents(v)))
            } else if row == 1 && col == 2 {
                with_osc(p, 2, osc_with_tune(p.osc2, spec_coarse_cents(v)))
            } else if row == 2 && col == 0 {
                with_osc(p, 0, osc_with_phase(p.osc0, spec_phase_bits(v)))
            } else if row == 2 && col == 1 {
                with_osc(p, 1, osc_with_phase(p.osc1, spec_phase_bits(v)))
            } else if row == 2 && col == 2 {
                with_osc(p, 2, osc_with_phase(p.osc2, spec_phase_bits(v)))
            } else {
                p
            }
        },
        ctrl::Input::Slider(i, v) => {
            if i == 0 {
                with_osc(p, 0, osc_with_amp(p.osc0, spec_q15(v)))
            } else if i == 1 {
                with_osc(p, 1, osc_with_amp(p.osc1, spec_q15(v)))
            } else if i == 2 {
                with_osc(p, 2, osc_with_amp(p.osc2, spec_q15(v)))
            } else if i == 7 {
                Program {
                    piano: p.piano,
                    osc0: p.osc0,
                    osc1: p.osc1,
                    osc2: p.osc2,
                    volume: spec_q15(v) as i32,
                    t: p.t,
                }
            } else {
                p
            }
        },
        _ => p,
    }
}

/// The oscillator states and the mixed value after the first `n` held
/// notes of one sample step: each note is played by all three
/// oscillators in turn, each advancing its own accumulator.
pub open spec fn spec_mix(
    o0: Osc,
    o1: Osc,
    o2: Osc,
    bank: &Wavetables,
    dt: u64,
    notes: Seq<(Note, u8)>,
    n: int,
) -> (Osc, Osc, Osc, int)
    decreases n,
{
    if n <= 0 {
        (o0, o1, o2, 0)
    } else {
        let prev = spec_mix(o0, o1, o2, bank, dt, notes, n - 1);
        let note = notes[n - 1].0;
        let s0 = spec_osc_out(prev.0, bank, dt, note);
        let s1 = spec_osc_out(prev.1, bank, dt, note);
        let s2 = spec_osc_out(prev.2, bank, dt, note);
        (
            osc_with_phi(prev.0, spec_osc_phi(prev.0, dt, note)),
            osc_with_phi(prev.1, spec_osc_phi(prev.1, dt, note)),
            osc_with_phi(prev.2, spec_osc_phi(prev.2, dt, note)),
            prev.3 + s0 + s1 + s2,
        )
    }
}

/// The time step of a sample call: the clock never runs backwards, and a
/// step saturates at one minute.
pub open spec fn spec_sample_dt(p: Program, t_micros: u64) -> u64 {
    let raw = if t_micros >= p.t {
        t_micros - p.t
    } else {
        0
    };
    if raw > 60_000_000 {
        60_000_000u64
    } else {
        raw as u64
    }
}

/// The mixed signal of one sample call, before the master volume.
pub open spec fn spec_mix_of(p: Program, bank: &Wavetables, t_micros: u64) -> (Osc, Osc, Osc, int) {
    let dt = spec_sample_dt(p, t_micros);
    let notes = spec_active_notes(p.piano);
    spec_mix(p.osc0, p.osc1, p.osc2, bank, dt, notes, notes.len() as int)
}

/// The output value of one sample call: the mix scaled by the master
/// volume (magnitude rounded toward zero).
pub open spec fn spec_sample_out(p: Program, bank: &Wavetables, t_micros: u64) -> int {
    let f = spec_mix_of(p, bank, t_micros).3;
    if f >= 0 {
        f * p.volume / 32768
    } else {
        -((-f) * p.volume / 32768)
    }
}

impl Program {
    /// Route a pad event: the piano takes it; the top-right pad, when
    /// pressed, resets the whole instance to its default.
    pub fn pad_in(&mut self, t_micros: u64, input: pad::Input) -> (nothing: ())
        requires
            old(self).wf(),
        ensures
            final(self).wf(),
            ({
                let ((x, y), v) = input;
                if x == 7 && y == 8 && v > 0 {
                    final(self).is_default()
                } else {
                    {
                        &&& final(self).piano.y == old(self).piano.y
                        &&& final(self).piano.octave == old(self).piano.octave
                        &&& final(self).piano.inactive == old(self).piano.inactive
                        &&& final(self).piano.active == old(self).piano.active
                        &&& ({
                            let k = spec_key_index(x as int, y - old(self).piano.y);
                            if 0 <= k < 13 {
                                final(self).piano.notes@ == old(self).piano.notes@.update(
                                    k,
                                    v,
                                )
                            } else {
                                final(self).piano.notes@ == old(self).piano.notes@
                            }
                        })
                        &&& final(self).osc0 == old(self).osc0
                        &&& final(self).osc1 == old(self).osc1
                        &&& final(self).osc2 == old(self).osc2
                        &&& final(self).volume == old(self).volume
                        &&& final(self).t == old(self).t
                    }
                }
            }),
    {
        self.piano.pad_in(t_micros, input);
        let ((x, y), v) = input;
        if x == 7 && y == 8 && v > 0 {
            *self = Program::default();
        }
    }

    /// Paint the pad output: a cleared frame with the piano's keys on it.
    pub fn pad_out(&self, t_micros: u64) -> (r: pad::Output)
        requires
            self.wf(),
        ensures
            r.wf(),
            r.cells@ == crate::piano::spec_painted(self.piano, pad::spec_clear_cells(), 13),
    {
        let mut output = pad::clear();
        self.piano.pad_out(t_micros, &mut output);
        output
    }

    /// Route a control event into the oscillators or the master volume.
    pub fn ctrl_in(&mut self, _t_micros: u64, input: ctrl::Input) -> (nothing: ())
        requires
            old(self).wf(),
        ensures
            *final(self) == spec_ctrl_in(*old(self), input),
            final(self).wf(),
    {
        match input {
            ctrl::Input::Knob(row, col, v) => {
                if row == 0 && col == 0 {
                    self.osc0.tune = fine_cents(v);
                } else if row == 0 && col == 1 {
                    self.osc1.tune = fine_cents(v);
                } else if row == 0 && col == 2 {
                    self.osc2.tune = fine_cents(v);
                } else if row == 1 && col == 0 {
                    self.osc0.tune = coarse_cents(v);
                } else if row == 1 && col == 1 {
                    self.osc1.tune = coarse_cents(v);
                } else if row == 1 && col == 2 {
                    self.osc2.tune = coarse_cents(v);
                } else if row == 2 && col == 0 {
                    self.osc0.phase = phase_bits(v);
                } else if row == 2 && col == 1 {
                    self.osc1.phase = phase_bits(v);
                } else if row == 2 && col == 2 {
                    self.osc2.phase = phase_bits(v);
                }
            },
            ctrl::Input::Slider(i, v) => {
                if i == 0 {
                    self.osc0.amp = q15(v);
                } else if i == 1 {
                    self.osc1.amp = q15(v);
                } else if i == 2 {
                    self.osc2.amp = q15(v);
                } else if i == 7 {
                    self.volume = q15(v);
                }
            },
            _ => {},
        }
    }

    /// The control output: every indicator dark.
    pub fn ctrl_out(&mut self, _t_micros: u64) -> (r: ctrl::Output)
        ensures
            r.wf(),
            forall|k: int| 0 <= k < 24 ==> r.knobs@[k] == ctrl::Color::Off,
            forall|k: int| 0 <= k < 16 ==> r.buttons@[k] == ctrl::Color::Off,
            r.up == ctrl::Color::Off && r.down == ctrl::Color::Off && r.left
                == ctrl::Color::Off && r.right == ctrl::Color::Off,
            forall|k: int| 0 <= k < 4 ==> r.select@[k] == false,
            *final(self) == *old(self),
    {
        ctrl::clear()
    }

    /// Mix one stereo sample at clock `t_micros`: every held piano note
    /// is played through all three oscillators, the sum is scaled by the
    /// master volume, and both channels carry the same value. The clock
    /// advances to `t_micros`.
    pub fn sample(&mut self, bank: &Wavetables, t_micros: u64) -> (r: (i64, i64))
        requires
            old(self).wf(),
            bank.wf(),
        ensures
            final(self).wf(),
            final(self).piano == old(self).piano,
            final(self).volume == old(self).volume,
            final(self).t == t_micros,
            final(self).osc0 == spec_mix_of(*old(self), bank, t_micros).0,
            final(self).osc1 == spec_mix_of(*old(self), bank, t_micros).1,
            final(self).osc2 == spec_mix_of(*old(self), bank, t_micros).2,
            r.0 == spec_sample_out(*old(self), bank, t_micros),
            r.1 == r.0,
            -1277952 <= r.0 <= 1277952,
    {
        let dt_raw: u64 = if t_micros >= self.t {
            t_micros - self.t
        } else {
            0
        };
        let dt: u64 = if dt_raw > 60_000_000 {
            60_000_000
        } else {
            dt_raw
        };
        self.t = t_micros;
        let notes = self.piano.notes();
        let ghost pre = *self;
        let mut f: i64 = 0;
        let mut i: usize = 0;
        while i < notes.len()
            invariant
                i <= notes.len(),
                notes@.len() <= 13,
                bank.wf(),
                self.osc0.wf() && self.osc1.wf() && self.osc2.wf(),
                forall|j: int| 0 <= j < notes@.len() ==> (#[trigger] notes@[j]).0.detune == 0,
                dt <= 60_000_000,
                self.osc0 == spec_mix(pre.osc0, pre.osc1, pre.osc2, bank, dt, notes@, i as int).0,
                self.osc1 == spec_mix(pre.osc0, pre.osc1, pre.osc2, bank, dt, notes@, i as int).1,
                self.osc2 == spec_mix(pre.osc0, pre.osc1, pre.osc2, bank, dt, notes@, i as int).2,
                f == spec_mix(pre.osc0, pre.osc1, pre.osc2, bank, dt, notes@, i as int).3,
                -98304 * i <= f <= 98304 * i,
                self.piano == pre.piano,
                self.volume == pre.volume,
                self.t == pre.t,
            decreases notes.len() - i,
        {
            let (note, _v) = notes[i];
            let s0 = self.osc0.sample(bank, dt, note);
            let s1 = self.osc1.sample(bank, dt, note);
            let s2 = self.osc2.sample(bank, dt, note);
            f = f + s0 + s1 + s2;
            i += 1;
        }
        let out: i64 = if f >= 0 {
            proof {
                crate::wavetable::lemma_mul_div_range(0, 0);
                lemma_vol_bound(f as int, self.volume as int);
            }
            ((f as u64 * self.volume as u64) / 32768) as i64
        } else {
            proof {
                lemma_vol_bound(-(f as int), self.volume as int);
            }
            let m: u64 = ((-f) as u64 * self.volume as u64) / 32768;
            -(m as i64)
        };
        (out, out)
    }

    /// The periodic tick: the instance does no time-driven work.
    pub fn tick(&mut self, _t_micros: u64) -> (nothing: ())
        ensures
            *final(self) == *old(self),
    {
    }
}

/// Scaling a magnitude by a Q15 volume of at most unity never enlarges it.
proof fn lemma_vol_bound(v: int, vol: int)
    requires
        0 <= v,
        0 <= vol <= 32768,
    ensures
        0 <= v * vol / 32768 <= v,
{
    assert(0 <= v * vol && v * vol <= v * 32768 && v * 32768 == 32768 * v) by (nonlinear_arith)
        requires
            0 <= v,
            0 <= vol <= 32768,
    ;
    vstd::arithmetic::div_mod::lemma_div_is_ordered(0, v * vol, 32768);
    vstd::arithmetic::div_mod::lemma_div_is_ordered(v * vol, 32768 * v, 32768);
    vstd::arithmetic::div_mod::lemma_div_multiples_vanish(v, 32768);
}

/// Silence: an instance with no held key mixes to exactly zero on both
/// channels, whatever the clock says and however often it is sampled; its
/// oscillators do not even advance.
pub proof fn lemma_silent_when_no_keys(p: Program, bank: &Wavetables, t_micros: u64)
    requires
        p.wf(),
        forall|k: int| 0 <= k < 13 ==> p.piano.notes@[k] == 0,
    ensures
        spec_sample_out(p, bank, t_micros) == 0,
        spec_mix_of(p, bank, t_micros).0 == p.osc0,
        spec_mix_of(p, bank, t_micros).1 == p.osc1,
        spec_mix_of(p, bank, t_micros).2 == p.osc2,
{
    crate::piano::lemma_all_released_silent(p.piano);
    assert(0int * p.volume == 0) by (nonlinear_arith);
    assert(0int / 32768 == 0);
}

} // verus!
