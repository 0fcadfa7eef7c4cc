//! Wavetable oscillator bank, in fixed point.
//!
//! A wavetable is a dense one-dimensional table of one waveform period in
//! Q15 (32768 stands for 1.0). A phase position is a `u32` in Q0.32: the
//! whole `u32` range is one period, so wrapping arithmetic on positions is
//! exactly the periodicity of the waveform. Sampling interpolates linearly
//! between the two nearest table entries.
//!
//! The four canonical tables are built once into an explicit
//! [`Wavetables`] bank, constructed at startup and passed by reference to
//! every lookup.

use vstd::prelude::*;
use vstd::arithmetic::div_mod::{
    lemma_div_is_ordered, lemma_div_multiples_vanish, lemma_div_multiples_vanish_fancy,
};
use vstd::arithmetic::power2::lemma2_to64;
use vstd::bits::lemma_u64_shr_is_div;

verus! {

/// Number of interpolation steps in a canonical table; such a table has
/// one more entry than steps, the last standing for the period's end.
pub const TABLE_STEPS: usize = 1024;

/// A precomputed one-dimensional waveform period in Q15.
pub struct Wavetable {
    pub data: Vec<i32>,
}

impl Wavetable {
    /// A table is usable when it has at least one interpolation interval,
    /// few enough entries for index arithmetic, and all entries in Q15
    /// range (both full-scale endpoints included).
    pub open spec fn wf(&self) -> bool {
        &&& 2 <= self.data@.len() <= 65536
        &&& forall|k: int| 0 <= k < self.data@.len() ==> -32768 <= #[trigger] self.data@[k]
            <= 32768
    }

    /// Build a table of `n + 1` entries from a generator called as
    /// `f(k, n)` for each index `k`: the sampled value at phase `k / n`.
    pub fn new_periodic<F: Fn(usize, usize) -> i32>(n: usize, f: F) -> (r: Wavetable)
        requires
            1 <= n <= 65535,
            forall|k: usize| k <= n ==> #[trigger] f.requires((k, n)),
            forall|k: usize, v: i32| #[trigger] f.ensures((k, n), v) ==> -32768 <= v <= 32768,
        ensures
            r.wf(),
            r.data@.len() == n + 1,
            forall|k: int| 0 <= k <= n ==> f.ensures(((k as usize), n), #[trigger] r.data@[k]),
    {
        let mut data: Vec<i32> = Vec::new();
        let mut k: usize = 0;
        while k <= n
            invariant
                k <= n + 1,
                n <= 65535,
                data@.len() == k,
                forall|j: usize| j <= n ==> #[trigger] f.requires((j, n)),
                forall|j: usize, v: i32| #[trigger] f.ensures((j, n), v) ==> -32768 <= v
                    <= 32768,
                forall|j: int| 0 <= j < k ==> f.ensures(((j as usize), n), #[trigger] data@[j]),
            decreases n + 1 - k,
        {
            let v = f(k, n);
            data.push(v);
            k += 1;
        }
        Wavetable { data }
    }

    /// Sample the table at a Q0.32 phase position with linear
    /// interpolation between the two nearest entries.
    pub fn sample(&self, pos: u32) -> (r: i32)
        requires
            self.wf(),
        ensures
            r == spec_table_sample(self, pos),
            -32768 <= r <= 32768,
    {
        let n: u64 = (self.data.len() - 1) as u64;
        proof {
            assert(pos as int * n as int <= 0xFFFF_FFFF * 65535) by (nonlinear_arith)
                requires
                    pos <= 0xFFFF_FFFFu32,
                    1 <= n <= 65535u64,
            ;
        }
        let f: u64 = pos as u64 * n;
        proof {
            lemma_u64_shr_is_div(f, 32);
            lemma2_to64();
            assert(f & 0xFFFF_FFFF == f % 0x1_0000_0000 && f % 0x1_0000_0000 < 0x1_0000_0000)
                by (bit_vector);
            assert(f <= 0xFFFF_FFFFu64 * n) by (nonlinear_arith)
                requires
                    pos <= 0xFFFF_FFFFu32,
                    f == pos as u64 * n,
                    n >= 1,
            ;
            assert(f <= n * 0x1_0000_0000 - 1) by (nonlinear_arith)
                requires
                    f <= 0xFFFF_FFFFu64 * n,
                    n >= 1,
            ;
            lemma_div_is_ordered(f as int, n * 0x1_0000_0000 - 1, 0x1_0000_0000);
            lemma_div_multiples_vanish_fancy(n as int - 1, 0x1_0000_0000 - 1, 0x1_0000_0000);
            assert(0x1_0000_0000 * (n as int - 1) + (0x1_0000_0000 - 1) == n * 0x1_0000_0000
                - 1) by (nonlinear_arith);
            assert(f / 0x1_0000_0000 < n);
        }
        let idx: usize = (f >> 32u64) as usize;
        let frac: u64 = f & 0xFFFF_FFFF;
        let v0: i32 = self.data[idx];
        let v1: i32 = self.data[idx + 1];
        if v1 >= v0 {
            let d: u64 = (v1 - v0) as u64;
            proof {
                assert(d * frac <= 65536 * 0xFFFF_FFFF) by (nonlinear_arith)
                    requires
                        d <= 65536u64,
                        frac <= 0xFFFF_FFFFu64,
                ;
                lemma_mul_div_range(d as int, frac as int);
            }
            let step: u64 = d * frac / 0x1_0000_0000;
            v0 + step as i32
        } else {
            let d: u64 = (v0 - v1) as u64;
            proof {
                assert(d * frac <= 65536 * 0xFFFF_FFFF) by (nonlinear_arith)
                    requires
                        d <= 65536u64,
                        frac <= 0xFFFF_FFFFu64,
                ;
                lemma_mul_div_range(d as int, frac as int);
            }
            let step: u64 = d * frac / 0x1_0000_0000;
            v0 - step as i32
        }
    }

    /// Sample the table at a primary Q0.32 position and a secondary
    /// modulation position. The canonical tables carry no modulation
    /// axis — every generator is constant along it — so the secondary
    /// position leaves the lookup unchanged and interpolation runs along
    /// the primary axis alone.
    pub fn sample_phi(&self, pos: u32, phi_pos: u32) -> (r: i32)
        requires
            self.wf(),
        ensures
            r == spec_table_sample(self, pos),
            -32768 <= r <= 32768,
    {
        let _ = phi_pos;
        self.sample(pos)
    }
}

/// Linear interpolation from `v0` toward `v1` by `frac / 2^32`, rounded
/// toward `v0`.
pub open spec fn spec_lerp(v0: int, v1: int, frac: int) -> int {
    if v1 >= v0 {
        v0 + (v1 - v0) * frac / 0x1_0000_0000
    } else {
        v0 - (v0 - v1) * frac / 0x1_0000_0000
    }
}

/// The value a table yields at a Q0.32 position: the position scaled by
/// the interval count selects an interval and an interpolation fraction.
pub open spec fn spec_table_sample(t: &Wavetable, pos: u32) -> int {
    let n = t.data@.len() - 1;
    let f = pos * n;
    let idx = f / 0x1_0000_0000;
    let frac = f % 0x1_0000_0000;
    spec_lerp(t.data@[idx] as int, t.data@[idx + 1] as int, frac)
}

/// For `d >= 0` and a fraction below one in Q32, `d * frac / 2^32` lies
/// between zero and `d`.
pub proof fn lemma_mul_div_range(d: int, frac: int)
    requires
        0 <= d,
        0 <= frac < 0x1_0000_0000,
    ensures
        0 <= d * frac / 0x1_0000_0000 <= d,
{
    assert(0 <= d * frac && d * frac <= d * 0x1_0000_0000 && d * 0x1_0000_0000 == 0x1_0000_0000
        * d) by (nonlinear_arith)
        requires
            0 <= d,
            0 <= frac < 0x1_0000_0000,
    ;
    lemma_div_is_ordered(0, d * frac, 0x1_0000_0000);
    lemma_div_is_ordered(d * frac, 0x1_0000_0000 * d, 0x1_0000_0000);
    lemma_div_multiples_vanish(d, 0x1_0000_0000);
}

/// Entry `k` of the canonical sine table: a parabolic arc per half period,
/// the classic cheap approximation of a sine in integer synthesis.
pub open spec fn sine_entry(k: int) -> int {
    if k <= 512 {
        k * (512 - k) / 2
    } else {
        -((k - 512) * (1024 - k) / 2)
    }
}

/// Entry `k` of the canonical triangle table: up from 0 to full scale at a
/// quarter period, down to negative full scale at three quarters, back.
pub open spec fn tri_entry(k: int) -> int {
    if k <= 256 {
        k * 128
    } else if k <= 768 {
        32768 - (k - 256) * 128
    } else {
        (k - 768) * 128 - 32768
    }
}

/// Entry `k` of the canonical sawtooth table: one linear ramp from
/// negative to positive full scale over the period.
pub open spec fn saw_entry(k: int) -> int {
    64 * k - 32768
}

/// Entry `k` of the canonical square table: full scale up in the first
/// half period, full scale down in the second.
pub open spec fn square_entry(k: int) -> int {
    if k < 512 {
        32767int
    } else {
        -32767int
    }
}

fn sine_value(k: usize, n: usize) -> (r: i32)
    requires
        k <= 1024,
    ensures
        r == sine_entry(k as int),
        -32768 <= r <= 32768,
{
    if k <= 512 {
        proof {
            assert(k * (512 - k) <= 65536) by (nonlinear_arith)
                requires
                    k <= 512usize,
            ;
        }
        ((k * (512 - k)) / 2) as i32
    } else {
        proof {
            assert((k - 512) * (1024 - k) <= 65536) by (nonlinear_arith)
                requires
                    512 < k <= 1024usize,
            ;
        }
        let m: usize = ((k - 512) * (1024 - k)) / 2;
        -(m as i32)
    }
}

fn tri_value(k: usize, n: usize) -> (r: i32)
    requires
        k <= 1024,
    ensures
        r == tri_entry(k as int),
        -32768 <= r <= 32768,
{
    if k <= 256 {
        (k * 128) as i32
    } else if k <= 768 {
        32768 - ((k - 256) * 128) as i32
    } else {
        ((k - 768) * 128) as i32 - 32768
    }
}

fn saw_value(k: usize, n: usize) -> (r: i32)
    requires
        k <= 1024,
    ensures
        r == saw_entry(k as int),
        -32768 <= r <= 32768,
{
    (64 * k) as i32 - 32768
}

fn square_value(k: usize, n: usize) -> (r: i32)
    requires
        k <= 1024,
    ensures
        r == square_entry(k as int),
        -32768 <= r <= 32768,
{
    if k < 512 {
        32767
    } else {
        -32767
    }
}

/// The bank of canonical waveform tables, built once at startup.
pub struct Wavetables {
    pub sine: Wavetable,
    pub tri: Wavetable,
    pub saw: Wavetable,
    pub square: Wavetable,
}

impl Wavetables {
    /// All four canonical tables present, each holding exactly its
    /// canonical entries.
    pub open spec fn wf(&self) -> bool {
        &&& self.sine.wf() && self.sine.data@.len() == 1025
        &&& self.tri.wf() && self.tri.data@.len() == 1025
        &&& self.saw.wf() && self.saw.data@.len() == 1025
        &&& self.square.wf() && self.square.data@.len() == 1025
        &&& forall|k: int| 0 <= k <= 1024 ==> #[trigger] self.sine.data@[k] == sine_entry(k)
        &&& forall|k: int| 0 <= k <= 1024 ==> #[trigger] self.tri.data@[k] == tri_entry(k)
        &&& forall|k: int| 0 <= k <= 1024 ==> #[trigger] self.saw.data@[k] == saw_entry(k)
        &&& forall|k: int| 0 <= k <= 1024 ==> #[trigger] self.square.data@[k] == square_entry(k)
    }

    /// Build the four canonical tables.
    pub fn new() -> (r: Wavetables)
        ensures
            r.wf(),
    {
        let sine = Wavetable::new_periodic(TABLE_STEPS, sine_value);
        let tri = Wavetable::new_periodic(TABLE_STEPS, tri_value);
        let saw = Wavetable::new_periodic(TABLE_STEPS, saw_value);
        let square = Wavetable::new_periodic(TABLE_STEPS, square_value);
        Wavetables { sine, tri, saw, square }
    }
}

/// A waveform selector: one of the canonical shapes, or a custom table.
pub enum Waveform {
    Sine,
    Tri,
    Saw,
    Square,
    Raw(Wavetable),
}

impl Waveform {
    /// A waveform is usable when a custom table it carries is usable.
    pub open spec fn wf(&self) -> bool {
        match self {
            Waveform::Raw(t) => t.wf(),
            _ => true,
        }
    }
}

impl Default for Waveform {
    /// The default waveform is the sine.
    fn default() -> (r: Self)
        ensures
            r == Waveform::Sine,
    {
        Waveform::Sine
    }
}

/// The value a waveform yields at a Q0.32 position against a bank.
pub open spec fn spec_waveform_sample(w: &Waveform, bank: &Wavetables, pos: u32) -> int {
    match w {
        Waveform::Sine => spec_table_sample(&bank.sine, pos),
        Waveform::Tri => spec_table_sample(&bank.tri, pos),
        Waveform::Saw => spec_table_sample(&bank.saw, pos),
        Waveform::Square => spec_table_sample(&bank.square, pos),
        Waveform::Raw(t) => spec_table_sample(t, pos),
    }
}

impl Waveform {
    /// Sample this waveform at a Q0.32 phase position.
    pub fn sample(&self, bank: &Wavetables, pos: u32) -> (r: i32)
        requires
            self.wf(),
            bank.wf(),
        ensures
            r == spec_waveform_sample(self, bank, pos),
            -32768 <= r <= 32768,
    {
        match self {
            Waveform::Sine => bank.sine.sample(pos),
            Waveform::Tri => bank.tri.sample(pos),
            Waveform::Saw => bank.saw.sample(pos),
            Waveform::Square => bank.square.sample(pos),
            Waveform::Raw(t) => t.sample(pos),
        }
    }

    /// Sample this waveform at a primary and a secondary position; with
    /// no modulation axis in the tables, the secondary position does
    /// not alter the value.
    pub fn sample_phi(&self, bank: &Wavetables, pos: u32, phi_pos: u32) -> (r: i32)
        requires
            self.wf(),
            bank.wf(),
        ensures
            r == spec_waveform_sample(self, bank, pos),
            -32768 <= r <= 32768,
    {
        let _ = phi_pos;
        self.sample(bank, pos)
    }
}

} // verus!
