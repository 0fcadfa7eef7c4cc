//! A single wavetable oscillator: waveform selector, gain, phase offset,
//! detune, and the running phase accumulator.
//!
//! Gain is Q15 (32768 stands for 1.0), the phase offset is a Q0.32 slice
//! of one period, detune is in cents, and the accumulator is Q32.32
//! cycles. The accumulator only ever grows, wrapping modulo `2^64`; the
//! table lookup reads its fractional period, so the waveform is exactly
//! periodic without any explicit modulo on the accumulator itself.

use vstd::prelude::*;
use vstd::arithmetic::div_mod::{
    lemma_div_is_ordered, lemma_div_multiples_vanish, lemma_mod_multiples_vanish,
    lemma_small_mod,
};
use vstd::arithmetic::power2::{lemma2_to64, lemma2_to64_rest, pow2};
use vstd::bits::{lemma_u64_pow2_no_overflow, lemma_u64_shl_is_mul, lemma_u128_shr_is_div};

use crate::pitch::{spec_freq_of_cents, total_cents, Freq, Note};
use crate::wavetable::{spec_waveform_sample, Waveform, Wavetables};

verus! {

/// One oscillator's state.
pub struct Osc {
    pub waveform: Waveform,
    /// Gain in Q15: 0 ..= 32768, where 32768 is unity.
    pub amp: i32,
    /// Phase offset as a Q0.32 slice of one period.
    pub phase: u32,
    /// Detune in cents, added to every note this oscillator plays.
    pub tune: i32,
    /// Accumulated phase in Q32.32 cycles, wrapping modulo `2^64`.
    pub phi: u64,
}

impl Osc {
    /// Usable oscillator state: gain at most unity, detune within a
    /// thousand octaves, and a usable waveform.
    pub open spec fn wf(&self) -> bool {
        &&& self.waveform.wf()
        &&& 0 <= self.amp <= 32768
        &&& -1_200_000 <= self.tune <= 1_200_000
    }
}

impl Default for Osc {
    /// A sine oscillator at unity gain, no phase offset, no detune, with
    /// the accumulator at zero.
    fn default() -> (r: Self)
        ensures
            r.waveform == Waveform::Sine,
            r.amp == 32768,
            r.phase == 0u32,
            r.tune == 0,
            r.phi == 0u64,
            r.wf(),
    {
        Osc { waveform: Waveform::Sine, amp: 32768, phase: 0, tune: 0, phi: 0 }
    }
}

/// How far the accumulator advances in `dt` microseconds at a given
/// frequency: `freq * dt` in Q32.32 cycles, the binary exponent applied
/// as a shift, wrapped modulo `2^64` as the accumulator itself is.
pub open spec fn spec_dphi(freq: Freq, dt_micros: u64) -> u64 {
    let per = freq.mant * dt_micros / 1000000;
    if freq.oct >= 0 {
        let e: nat = if freq.oct >= 64 {
            64nat
        } else {
            freq.oct as nat
        };
        ((per * pow2(e)) % 0x1_0000_0000_0000_0000) as u64
    } else {
        let e: nat = if freq.oct <= -64 {
            64nat
        } else {
            (-(freq.oct as int)) as nat
        };
        ((per / pow2(e) as int) % 0x1_0000_0000_0000_0000) as u64
    }
}

/// The accumulator after one sampling step on a note.
pub open spec fn spec_osc_phi(osc: Osc, dt_micros: u64, note: Note) -> u64 {
    let freq = spec_freq_of_cents(total_cents(note) + osc.tune);
    ((osc.phi + spec_dphi(freq, dt_micros)) % 0x1_0000_0000_0000_0000) as u64
}

/// The table position of one sampling step: the fractional period of the
/// advanced accumulator, plus the phase offset, wrapping within a period.
pub open spec fn spec_osc_pos(osc: Osc, dt_micros: u64, note: Note) -> u32 {
    let phi2 = spec_osc_phi(osc, dt_micros, note);
    (((phi2 % 0x1_0000_0000) + osc.phase) % 0x1_0000_0000) as u32
}

/// The sampled value of one step: the waveform at the step's position,
/// scaled by the gain (magnitude rounded toward zero).
pub open spec fn spec_osc_out(osc: Osc, bank: &Wavetables, dt_micros: u64, note: Note) -> int {
    let v = spec_waveform_sample(&osc.waveform, bank, spec_osc_pos(osc, dt_micros, note));
    if v >= 0 {
        v * osc.amp / 32768
    } else {
        -((-v) * osc.amp / 32768)
    }
}

/// Scaling a magnitude by a Q15 gain of at most unity never enlarges it.
proof fn lemma_gain_bound(v: int, a: int)
    requires
        0 <= v,
        0 <= a <= 32768,
    ensures
        0 <= v * a / 32768 <= v,
{
    assert(0 <= v * a && v * a <= v * 32768 && v * 32768 == 32768 * v) by (nonlinear_arith)
        requires
            0 <= v,
            0 <= a <= 32768,
    ;
    lemma_div_is_ordered(0, v * a, 32768);
    lemma_div_is_ordered(v * a, 32768 * v, 32768);
    lemma_div_multiples_vanish(v, 32768);
}

impl Osc {
    /// Advance the accumulator by `dt_micros` microseconds at the pitch of
    /// `note` detuned by this oscillator's own tune, then sample the
    /// waveform at the new accumulator plus the phase offset, scaled by
    /// the gain.
    pub fn sample(&mut self, bank: &Wavetables, dt_micros: u64, note: Note) -> (r: i64)
        requires
            old(self).wf(),
            bank.wf(),
            dt_micros <= 60_000_000,
            -1_000_000 <= note.detune <= 1_000_000,
        ensures
            final(self).waveform == old(self).waveform,
            final(self).amp == old(self).amp,
            final(self).phase == old(self).phase,
            final(self).tune == old(self).tune,
            final(self).phi == spec_osc_phi(*old(self), dt_micros, note),
            r == spec_osc_out(*old(self), bank, dt_micros, note),
            -32768 <= r <= 32768,
            final(self).wf(),
    {
        let freq = note.detune(self.tune).freq();
        proof {
            assert(freq.mant as int * dt_micros as int <= 3779571220480 * 60_000_000)
                by (nonlinear_arith)
                requires
                    freq.mant <= 3779571220480u64,
                    dt_micros <= 60_000_000u64,
            ;
        }
        let per: u128 = (freq.mant as u128) * (dt_micros as u128) / 1_000_000;
        proof {
            lemma_div_is_ordered(
                (freq.mant as u128 * dt_micros as u128) as int,
                3779571220480int * 60_000_000,
                1_000_000,
            );
            assert(3779571220480 * 60_000_000 / 1_000_000 == 226774273228800int);
        }
        let dphi: u64;
        if freq.oct >= 0 {
            if freq.oct >= 64 {
                dphi = 0;
                proof {
                    lemma2_to64();
                    lemma2_to64_rest();
                    lemma_mod_multiples_vanish(
                        per as int,
                        0,
                        0x1_0000_0000_0000_0000,
                    );
                    assert(per * pow2(64) == 0x1_0000_0000_0000_0000 * (per as int))
                        by (nonlinear_arith)
                        requires
                            pow2(64) == 0x1_0000_0000_0000_0000,
                    ;
                }
            } else {
                let e: u64 = freq.oct as u64;
                proof {
                    lemma_u64_pow2_no_overflow(e as nat);
                    lemma_u64_shl_is_mul(1, e);
                }
                let scale: u64 = 1u64 << e;
                proof {
                    assert(per * (scale as int) <= 226774273228800 * 0xFFFF_FFFF_FFFF_FFFF)
                        by (nonlinear_arith)
                        requires
                            per <= 226774273228800u128,
                            scale <= 0xFFFF_FFFF_FFFF_FFFFu64,
                    ;
                    assert(per * (scale as int) == per * pow2(e as nat)) by (nonlinear_arith)
                        requires
                            scale == pow2(e as nat),
                    ;
                }
                let prod: u128 = per * (scale as u128);
                dphi = (prod % 0x1_0000_0000_0000_0000) as u64;
            }
        } else {
            let ne: u128 = if freq.oct <= -64 {
                64
            } else {
                (0i64 - freq.oct as i64) as u128
            };
            proof {
                lemma_u128_shr_is_div(per, ne);
            }
            let q: u128 = per >> ne;
            proof {
                vstd::arithmetic::power2::lemma_pow2_pos(ne as nat);
                lemma_div_is_ordered(0, per as int, pow2(ne as nat) as int);
                lemma_div_is_ordered(per as int, 226774273228800, pow2(ne as nat) as int);
                lemma_small_mod(q as nat, 0x1_0000_0000_0000_0000);
            }
            dphi = (q % 0x1_0000_0000_0000_0000) as u64;
        }
        let phi2: u64 = self.phi.wrapping_add(dphi);
        proof {
            if self.phi + dphi <= u64::MAX {
                lemma_small_mod((self.phi + dphi) as nat, 0x1_0000_0000_0000_0000);
            } else {
                lemma_mod_multiples_vanish(
                    1,
                    self.phi + dphi - 0x1_0000_0000_0000_0000,
                    0x1_0000_0000_0000_0000,
                );
                lemma_small_mod(
                    (self.phi + dphi - 0x1_0000_0000_0000_0000) as nat,
                    0x1_0000_0000_0000_0000,
                );
            }
        }
        self.phi = phi2;
        let low: u32 = (phi2 % 0x1_0000_0000) as u32;
        let pos: u32 = low.wrapping_add(self.phase);
        proof {
            if low + self.phase <= u32::MAX {
                lemma_small_mod((low + self.phase) as nat, 0x1_0000_0000);
            } else {
                lemma_mod_multiples_vanish(
                    1,
                    low + self.phase - 0x1_0000_0000,
                    0x1_0000_0000,
                );
                lemma_small_mod((low + self.phase - 0x1_0000_0000) as nat, 0x1_0000_0000);
            }
        }
        let v: i32 = self.waveform.sample(bank, pos);
        if v >= 0 {
            proof {
                lemma_gain_bound(v as int, self.amp as int);
            }
            ((v as u64 * self.amp as u64) / 32768) as i64
        } else {
            proof {
                lemma_gain_bound(-(v as int), self.amp as int);
            }
            let m: u64 = ((-(v as i64)) as u64 * self.amp as u64) / 32768;
            -(m as i64)
        }
    }
}

} // verus!
