//! Musical notes and equal-temperament pitch.
//!
//! A note is a letter, an accidental, an octave and a detune given in cents
//! (hundredths of a semitone). Frequency follows the equal-temperament law
//! `f = 440 Hz * 2^(total_cents / 1200)` where `total_cents` measures the
//! distance from the A of octave 4. A frequency is represented exactly in
//! binary fixed point as a mantissa in Q32 together with a binary exponent,
//! so that "one octave up" is literally "exponent plus one".

use vstd::prelude::*;
use vstd::arithmetic::div_mod::{
    lemma_div_is_ordered, lemma_div_multiples_vanish, lemma_div_plus_one,
    lemma_fundamental_div_mod, lemma_fundamental_div_mod_converse, lemma_mod_multiples_vanish,
};
use vstd::arithmetic::power2::lemma2_to64;
use vstd::bits::lemma_u128_shr_is_div;

verus! {

/// The seven note letters.
#[derive(Clone, Copy, Debug, PartialEq, Eq, Structural)]
pub enum Letter {
    C,
    D,
    E,
    F,
    G,
    A,
    B,
}

/// An accidental shifting a letter by whole semitones.
#[derive(Clone, Copy, Debug, PartialEq, Eq, Structural)]
pub enum Accidental {
    DoubleFlat,
    Flat,
    Natural,
    Sharp,
    DoubleSharp,
}

/// Semitone offset of a letter from C within one octave.
pub open spec fn letter_offset(l: Letter) -> int {
    match l {
        Letter::C => 0,
        Letter::D => 2,
        Letter::E => 4,
        Letter::F => 5,
        Letter::G => 7,
        Letter::A => 9,
        Letter::B => 11,
    }
}

/// Semitone shift of an accidental.
pub open spec fn accidental_offset(a: Accidental) -> int {
    match a {
        Accidental::DoubleFlat => -2,
        Accidental::Flat => -1,
        Accidental::Natural => 0,
        Accidental::Sharp => 1,
        Accidental::DoubleSharp => 2,
    }
}

impl Letter {
    /// Semitone offset of this letter from C within one octave.
    pub fn offset(&self) -> (r: i32)
        ensures
            r == letter_offset(*self),
    {
        match self {
            Letter::C => 0,
            Letter::D => 2,
            Letter::E => 4,
            Letter::F => 5,
            Letter::G => 7,
            Letter::A => 9,
            Letter::B => 11,
        }
    }
}

impl Accidental {
    /// Semitone shift of this accidental.
    pub fn offset(&self) -> (r: i32)
        ensures
            r == accidental_offset(*self),
    {
        match self {
            Accidental::DoubleFlat => -2,
            Accidental::Flat => -1,
            Accidental::Natural => 0,
            Accidental::Sharp => 1,
            Accidental::DoubleSharp => 2,
        }
    }
}

/// The tuning system in use. Only equal temperament is defined.
#[derive(Clone, Copy, Debug, PartialEq, Eq, Structural)]
pub enum Temperament {
    Equal,
}

/// A tuning: the frequency assigned to the A of octave 4, in hertz, and the
/// temperament that spreads the remaining notes around it.
#[derive(Clone, Copy, Debug, PartialEq, Eq, Structural)]
pub struct Tuning {
    pub a4_freq: u32,
    pub temperament: Temperament,
}

impl Default for Tuning {
    /// The conventional concert tuning: A4 = 440 Hz, equal temperament.
    fn default() -> (r: Self)
        ensures
            r.a4_freq == 440,
            r.temperament == Temperament::Equal,
    {
        Tuning { a4_freq: 440, temperament: Temperament::Equal }
    }
}

/// A musical note: letter, accidental, octave, and a detune in cents
/// (hundredths of a semitone) added on top of the named pitch.
#[derive(Clone, Copy, Debug, PartialEq, Eq, Structural)]
pub struct Note {
    pub letter: Letter,
    pub accidental: Accidental,
    pub octave: i8,
    pub detune: i32,
}

/// Distance of a note from A4 in cents, detune included.
pub open spec fn total_cents(n: Note) -> int {
    (letter_offset(n.letter) + accidental_offset(n.accidental) - 9 + 12 * (n.octave - 4)) * 100
        + n.detune
}

/// The note a MIDI note number names: octave from the number's twelves,
/// letter and sharp from its remainder, no detune.
pub open spec fn spec_note_of_midi(midi: int) -> Note {
    let octave = (midi / 12 - 2) as i8;
    let rem = midi % 12;
    let letter = if rem <= 1 {
        Letter::C
    } else if rem <= 3 {
        Letter::D
    } else if rem == 4 {
        Letter::E
    } else if rem <= 6 {
        Letter::F
    } else if rem <= 8 {
        Letter::G
    } else if rem <= 10 {
        Letter::A
    } else {
        Letter::B
    };
    let accidental = if rem == 1 || rem == 3 || rem == 6 || rem == 8 || rem == 10 {
        Accidental::Sharp
    } else {
        Accidental::Natural
    };
    Note { letter, accidental, octave, detune: 0 }
}

/// A frequency in binary fixed point: `mant / 2^32 * 2^oct` hertz.
/// Doubling a frequency is exactly `oct + 1` with the mantissa untouched.
#[derive(Clone, Copy, Debug, PartialEq, Eq, Structural)]
pub struct Freq {
    pub mant: u64,
    pub oct: i32,
}

/// The reference pitch, 440 Hz, as a Q32 mantissa: `440 * 2^32`.
pub open spec fn spec_a4_q32() -> u64 {
    1889785610240u64
}

/// `2^(s/12)` in Q32, rounded to nearest, for `0 <= s <= 12`.
pub open spec fn semi_ratio_q32(s: int) -> u64 {
    if s <= 0 {
        4294967296u64
    } else if s == 1 {
        4550359342u64
    } else if s == 2 {
        4820937788u64
    } else if s == 3 {
        5107605667u64
    } else if s == 4 {
        5411319705u64
    } else if s == 5 {
        5733093519u64
    } else if s == 6 {
        6074001000u64
    } else if s == 7 {
        6435179895u64
    } else if s == 8 {
        6817835604u64
    } else if s == 9 {
        7223245206u64
    } else if s == 10 {
        7652761717u64
    } else if s == 11 {
        8107818609u64
    } else {
        8589934592u64
    }
}

/// `2^(rem/1200)` in Q32 for `0 <= rem < 1200`, as this library defines it:
/// linear interpolation between the two neighbouring exact semitone ratios.
/// At `rem == 0` this is exactly `2^32`, i.e. a ratio of one.
pub open spec fn cents_ratio_q32(rem: int) -> u64 {
    let s = rem / 100;
    let c = rem % 100;
    (semi_ratio_q32(s) + (semi_ratio_q32(s + 1) - semi_ratio_q32(s)) * c / 100) as u64
}

/// The frequency, as mantissa and binary exponent, of a pitch `cents` cents
/// away from A4 under equal temperament at 440 Hz.
pub open spec fn spec_freq_of_cents(cents: int) -> Freq {
    let oct = cents / 1200;
    let rem = cents % 1200;
    Freq {
        mant: (spec_a4_q32() * cents_ratio_q32(rem) / 0x1_0000_0000) as u64,
        oct: oct as i32,
    }
}

impl Note {
    /// The note's frequency under equal temperament at A4 = 440 Hz,
    /// `440 * 2^(total_cents / 1200)`, in exact binary fixed point.
    pub fn freq(&self) -> (r: Freq)
        ensures
            r == spec_freq_of_cents(total_cents(*self)),
            r.mant <= 3779571220480,
            -3579140 <= r.oct <= 3579139,
    {
        let letter_off: i64 = self.letter.offset() as i64;
        let acc_off: i64 = self.accidental.offset() as i64;
        let steps: i64 = letter_off + acc_off - 9 + 12 * (self.octave as i64 - 4);
        let cents: i64 = steps * 100 + self.detune as i64;
        proof {
            assert(cents == total_cents(*self));
        }
        freq_of_cents(cents)
    }

    /// The same note shifted by further cents; detune adds before the
    /// exponent of the frequency law.
    pub fn detune(self, cents: i32) -> (r: Self)
        requires
            i32::MIN <= self.detune + cents <= i32::MAX,
        ensures
            r.letter == self.letter,
            r.accidental == self.accidental,
            r.octave == self.octave,
            r.detune == self.detune + cents,
            total_cents(r) == total_cents(self) + cents,
    {
        Note { detune: self.detune + cents, ..self }
    }

    /// The note `midi` semitones above the C of octave -2, with no detune:
    /// the decoding of a MIDI note number.
    pub fn from_midi(midi: i8) -> (r: Self)
        requires
            midi >= 0,
        ensures
            r == spec_note_of_midi(midi as int),
            r.octave == midi / 12 - 2,
            letter_offset(r.letter) + accidental_offset(r.accidental) == midi % 12,
            r.detune == 0,
    {
        let m: u8 = midi as u8;
        let octave: i8 = (m / 12) as i8 - 2;
        let rem: u8 = m % 12;
        let (letter, accidental) = if rem == 0 {
            (Letter::C, Accidental::Natural)
        } else if rem == 1 {
            (Letter::C, Accidental::Sharp)
        } else if rem == 2 {
            (Letter::D, Accidental::Natural)
        } else if rem == 3 {
            (Letter::D, Accidental::Sharp)
        } else if rem == 4 {
            (Letter::E, Accidental::Natural)
        } else if rem == 5 {
            (Letter::F, Accidental::Natural)
        } else if rem == 6 {
            (Letter::F, Accidental::Sharp)
        } else if rem == 7 {
            (Letter::G, Accidental::Natural)
        } else if rem == 8 {
            (Letter::G, Accidental::Sharp)
        } else if rem == 9 {
            (Letter::A, Accidental::Natural)
        } else if rem == 10 {
            (Letter::A, Accidental::Sharp)
        } else {
            (Letter::B, Accidental::Natural)
        };
        Note { letter, accidental, octave, detune: 0 }
    }
}

/// Exact semitone ratio table: `2^(s/12)` in Q32 for `0 <= s <= 12`.
fn semi_ratio(s: u64) -> (r: u64)
    requires
        s <= 12,
    ensures
        r == semi_ratio_q32(s as int),
{
    if s == 0 {
        4294967296
    } else if s == 1 {
        4550359342
    } else if s == 2 {
        4820937788
    } else if s == 3 {
        5107605667
    } else if s == 4 {
        5411319705
    } else if s == 5 {
        5733093519
    } else if s == 6 {
        6074001000
    } else if s == 7 {
        6435179895
    } else if s == 8 {
        6817835604
    } else if s == 9 {
        7223245206
    } else if s == 10 {
        7652761717
    } else if s == 11 {
        8107818609
    } else {
        8589934592
    }
}

/// Frequency of a pitch `cents` cents from A4: split into whole binary
/// octaves and a residue, take the residue's ratio, scale the reference.
fn freq_of_cents(cents: i64) -> (r: Freq)
    requires
        -0x1_0000_0000 <= cents <= 0x1_0000_0000,
    ensures
        r == spec_freq_of_cents(cents as int),
        r.mant <= 3779571220480,
        -3579140 <= r.oct <= 3579139,
{
    // Shift into nonnegative territory so that unsigned division below is
    // exactly the Euclidean division the specification uses.
    let shift_octaves: i64 = 0x800_0000;
    let shifted: u64 = (cents + shift_octaves * 1200) as u64;
    let q: u64 = shifted / 1200;
    let rem: u64 = shifted % 1200;
    let oct: i64 = q as i64 - shift_octaves;
    proof {
        lemma_fundamental_div_mod(shifted as int, 1200);
        lemma_fundamental_div_mod_converse(cents as int, 1200, oct as int, rem as int);
    }
    let s: u64 = rem / 100;
    let c: u64 = rem % 100;
    let lo: u64 = semi_ratio(s);
    let hi: u64 = semi_ratio(s + 1);
    assert(lo < hi && hi - lo < 0x2000_0000);
    let d: u64 = hi - lo;
    proof {
        assert(d * c <= d * 100 && d * 100 == 100 * d && d * c >= 0) by (nonlinear_arith)
            requires c <= 100u64,
        ;
        assert(100 * (d as int) < 100 * 0x2000_0000) by (nonlinear_arith)
            requires d < 0x2000_0000u64,
        ;
        lemma_div_is_ordered((d * c) as int, (d * 100) as int, 100);
        lemma_div_multiples_vanish(d as int, 100);
    }
    let step: u64 = d * c / 100;
    let ratio: u64 = lo + step;
    assert(ratio == cents_ratio_q32(rem as int));
    let prod: u128 = 1889785610240u128 * ratio as u128;
    let shifted_prod: u128 = prod >> 32;
    proof {
        lemma_u128_shr_is_div(prod, 32);
        lemma2_to64();
        assert(prod <= 1889785610240u128 * 0x2_0000_0000) by (nonlinear_arith)
            requires
                ratio <= 0x2_0000_0000u64,
                prod == 1889785610240u128 * ratio as u128,
        ;
        assert(shifted_prod == prod as int / 0x1_0000_0000);
        lemma_div_is_ordered(prod as int, 1889785610240int * 0x2_0000_0000, 0x1_0000_0000);
        lemma_div_multiples_vanish(3779571220480, 0x1_0000_0000);
        assert(1889785610240 * 0x2_0000_0000 == 0x1_0000_0000 * 3779571220480int)
            by (nonlinear_arith);
        lemma_fundamental_div_mod_converse(-0x1_0000_0000, 1200, -3579140, 704);
        lemma_fundamental_div_mod_converse(0x1_0000_0000, 1200, 3579139, 496);
        lemma_div_is_ordered(-0x1_0000_0000, cents as int, 1200);
        lemma_div_is_ordered(cents as int, 0x1_0000_0000, 1200);
    }
    let mant: u64 = shifted_prod as u64;
    Freq { mant, oct: oct as i32 }
}

/// Pitch law, reference point: a note whose distance from A4 is zero cents
/// (A natural, octave 4, no detune) sounds at exactly the reference
/// frequency: mantissa 440 in Q32, exponent zero.
pub proof fn lemma_pitch_at_reference(n: Note)
    requires
        total_cents(n) == 0,
    ensures
        spec_freq_of_cents(total_cents(n)) == (Freq { mant: spec_a4_q32(), oct: 0 }),
{
    assert(0int / 1200 == 0);
    assert(0int % 1200 == 0);
    assert(cents_ratio_q32(0) == 4294967296u64) by {
        assert(0int / 100 == 0);
        assert(0int % 100 == 0);
        let diff = semi_ratio_q32(1) - semi_ratio_q32(0);
        assert(diff * 0 == 0) by (nonlinear_arith);
    };
    assert(spec_a4_q32() * 4294967296u64 / 0x1_0000_0000 == spec_a4_q32()) by {
        lemma_div_multiples_vanish(spec_a4_q32() as int, 0x1_0000_0000);
        assert(spec_a4_q32() * 4294967296u64 == 0x1_0000_0000 * (spec_a4_q32() as int))
            by (nonlinear_arith);
    };
}

/// Pitch law, octave step: adding 1200 cents (twelve semitones) to any pitch
/// leaves the mantissa untouched and raises the binary exponent by one,
/// which is exactly a doubling of the frequency.
pub proof fn lemma_octave_doubles(cents: int)
    requires
        -0x1_0000_0000 <= cents && cents + 1200 <= 0x1_0000_0000,
    ensures
        spec_freq_of_cents(cents + 1200).mant == spec_freq_of_cents(cents).mant,
        spec_freq_of_cents(cents + 1200).oct == spec_freq_of_cents(cents).oct + 1,
{
    lemma_div_plus_one(cents, 1200);
    lemma_mod_multiples_vanish(1, cents, 1200);
}

/// Pitch law, whole note: raising a note's octave field by one adds exactly
/// 1200 cents to its distance from the reference.
pub proof fn lemma_octave_field_adds_1200(a: Note, b: Note)
    requires
        b.letter == a.letter,
        b.accidental == a.accidental,
        b.octave == a.octave + 1,
        b.detune == a.detune,
    ensures
        total_cents(b) == total_cents(a) + 1200,
{
}

} // verus!
