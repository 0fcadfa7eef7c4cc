//! Self-describing byte serialization of the program instance.
//!
//! The encoding is a flat sequence of tagged records, each `[tag][length
//! as four little-endian bytes][payload]`. A decoder starts from the
//! default instance, applies the records it knows in order, skips tags it
//! does not know, and leaves fields it never sees at their defaults — so
//! an older serialization restores into a newer instance, and extra
//! fields are ignored. Any structurally broken record, or a known record
//! whose payload fails validation, fails the whole restore; the reload
//! protocol then falls back to the default instance.
//!
//! Signed fields travel offset-binary (the value plus `2^31` as an
//! unsigned 32-bit number) so every byte of the format is a plain
//! unsigned quantity.

use vstd::prelude::*;
use vstd::seq_lib::lemma_concat_associative;
use vstd::arithmetic::div_mod::{
    lemma_div_denominator, lemma_div_is_ordered, lemma_fundamental_div_mod, lemma_mod_bound,
};
use crate::color::Color;
use crate::osc::Osc;
use crate::program::Program;
use crate::wavetable::{Waveform, Wavetable};

verus! {

/// The value of four little-endian bytes.
pub open spec fn spec_le32(b: Seq<u8>) -> int {
    b[0] + 256 * b[1] + 65536 * b[2] + 16777216 * b[3]
}

/// A value below `2^32` as four little-endian bytes.
pub open spec fn spec_enc32(v: int) -> Seq<u8> {
    seq![
        (v % 256) as u8,
        (v / 256 % 256) as u8,
        (v / 65536 % 256) as u8,
        (v / 16777216 % 256) as u8,
    ]
}

/// The value of eight little-endian bytes.
pub open spec fn spec_le64(b: Seq<u8>) -> int {
    spec_le32(b.subrange(0, 4)) + 0x1_0000_0000 * spec_le32(b.subrange(4, 8))
}

/// A value below `2^64` as eight little-endian bytes.
pub open spec fn spec_enc64(v: int) -> Seq<u8> {
    spec_enc32(v % 0x1_0000_0000) + spec_enc32(v / 0x1_0000_0000)
}

/// A signed value in offset binary: shifted up by `2^31`.
pub open spec fn spec_off32(v: int) -> int {
    v + 0x8000_0000
}

/// Four little-endian bytes decode the value they were encoded from.
pub proof fn lemma_enc32_round(v: int)
    requires
        0 <= v < 0x1_0000_0000,
    ensures
        spec_enc32(v).len() == 4,
        forall|i: int| 0 <= i < 4 ==> spec_enc32(v)[i] < 256,
        spec_le32(spec_enc32(v)) == v,
{
    let r1 = v / 256;
    let r2 = v / 65536;
    let r3 = v / 16777216;
    lemma_fundamental_div_mod(v, 256);
    lemma_fundamental_div_mod(r1, 256);
    lemma_fundamental_div_mod(r2, 256);
    lemma_div_denominator(v, 256, 256);
    lemma_div_denominator(v, 65536, 256);
    lemma_div_is_ordered(v, 0x1_0000_0000 - 1, 16777216);
    lemma_mod_bound(v, 256);
    lemma_mod_bound(r1, 256);
    lemma_mod_bound(r2, 256);
    lemma_mod_bound(r3, 256);
    assert(r3 < 256);
    assert(r3 % 256 == r3) by {
        vstd::arithmetic::div_mod::lemma_small_mod(r3 as nat, 256);
    };
}

/// Eight little-endian bytes decode the value they were encoded from.
pub proof fn lemma_enc64_round(v: int)
    requires
        0 <= v < 0x1_0000_0000_0000_0000,
    ensures
        spec_enc64(v).len() == 8,
        spec_le64(spec_enc64(v)) == v,
{
    let lo = v % 0x1_0000_0000;
    let hi = v / 0x1_0000_0000;
    lemma_fundamental_div_mod(v, 0x1_0000_0000);
    lemma_mod_bound(v, 0x1_0000_0000);
    lemma_div_is_ordered(v, 0x1_0000_0000_0000_0000 - 1, 0x1_0000_0000);
    lemma_enc32_round(lo);
    lemma_enc32_round(hi);
    assert(spec_enc64(v).subrange(0, 4) =~= spec_enc32(lo));
    assert(spec_enc64(v).subrange(4, 8) =~= spec_enc32(hi));
}

/// The abstract value of a waveform selector: its kind number, and the
/// entries of a custom table.
#[verifier::ext_equal]
pub ghost struct WaveModel {
    pub kind: int,
    pub table: Seq<i32>,
}

/// The abstract value of one oscillator.
#[verifier::ext_equal]
pub ghost struct OscModel {
    pub wave: WaveModel,
    pub amp: i32,
    pub phase: u32,
    pub tune: i32,
    pub phi: u64,
}

/// The abstract value of the whole instance: every field as a plain
/// mathematical value. Two instances with the same model are
/// observationally identical.
#[verifier::ext_equal]
pub ghost struct Model {
    pub y: i8,
    pub octave: i8,
    pub inactive: Color,
    pub active: Color,
    pub notes: Seq<u8>,
    pub osc0: OscModel,
    pub osc1: OscModel,
    pub osc2: OscModel,
    pub volume: i32,
    pub t: u64,
}

/// The kind number of a waveform selector.
pub open spec fn wave_kind(w: Waveform) -> int {
    match w {
        Waveform::Sine => 0,
        Waveform::Tri => 1,
        Waveform::Saw => 2,
        Waveform::Square => 3,
        Waveform::Raw(_) => 4,
    }
}

/// The table entries of a waveform selector; empty unless custom.
pub open spec fn wave_table(w: Waveform) -> Seq<i32> {
    match w {
        Waveform::Raw(t) => t.data@,
        _ => Seq::empty(),
    }
}

/// The abstract value of a waveform.
pub open spec fn abs_wave(w: Waveform) -> WaveModel {
    WaveModel { kind: wave_kind(w), table: wave_table(w) }
}

/// The abstract value of an oscillator.
pub open spec fn abs_osc(o: Osc) -> OscModel {
    OscModel { wave: abs_wave(o.waveform), amp: o.amp, phase: o.phase, tune: o.tune, phi: o.phi }
}

/// The abstract value of an instance.
pub open spec fn abs(p: Program) -> Model {
    Model {
        y: p.piano.y,
        octave: p.piano.octave,
        inactive: p.piano.inactive,
        active: p.piano.active,
        notes: p.piano.notes@,
        osc0: abs_osc(p.osc0),
        osc1: abs_osc(p.osc1),
        osc2: abs_osc(p.osc2),
        volume: p.volume,
        t: p.t,
    }
}

/// The model of the default instance: what a decoder starts from, and
/// what every field it never sees stays at.
pub open spec fn default_model() -> Model {
    Model {
        y: 0,
        octave: 4,
        inactive: Color(127, 127, 127),
        active: Color(127, 0, 0),
        notes: seq![0u8, 0, 0, 0, 0, 0, 0, 0, 0, 0, 0, 0, 0],
        osc0: OscModel {
            wave: WaveModel { kind: 0, table: Seq::empty() },
            amp: 32768,
            phase: 0,
            tune: 0,
            phi: 0,
        },
        osc1: OscModel {
            wave: WaveModel { kind: 1, table: Seq::empty() },
            amp: 32768,
            phase: 0,
            tune: 0,
            phi: 0,
        },
        osc2: OscModel {
            wave: WaveModel { kind: 2, table: Seq::empty() },
            amp: 32768,
            phase: 0,
            tune: 0,
            phi: 0,
        },
        volume: 328,
        t: 0,
    }
}

/// A default instance's model is the decoder's starting model.
pub proof fn lemma_abs_default(p: Program)
    requires
        p.is_default(),
    ensures
        abs(p) == default_model(),
{
    assert(abs(p).notes =~= default_model().notes);
    assert(abs(p).osc0.wave.table =~= default_model().osc0.wave.table);
    assert(abs(p).osc1.wave.table =~= default_model().osc1.wave.table);
    assert(abs(p).osc2.wave.table =~= default_model().osc2.wave.table);
    assert(abs(p) =~~= default_model());
}

/// One tagged record: the tag, the payload length, the payload.
pub open spec fn spec_rec(tag: u8, payload: Seq<u8>) -> Seq<u8> {
    seq![tag] + spec_enc32(payload.len() as int) + payload
}

/// The payload of a waveform field: the kind byte alone for a canonical
/// shape; for a custom table, the kind byte, the entry count and the
/// entries, each offset by full scale into four little-endian bytes.
pub open spec fn spec_wave_payload(w: WaveModel) -> Seq<u8> {
    if w.kind == 4 {
        seq![4u8] + spec_enc32(w.table.len() as int) + spec_enc_entries(
            w.table,
            w.table.len() as int,
        )
    } else {
        seq![w.kind as u8]
    }
}

/// The first `n` table entries as bytes.
pub open spec fn spec_enc_entries(t: Seq<i32>, n: int) -> Seq<u8>
    decreases n,
{
    if n <= 0 {
        Seq::empty()
    } else {
        spec_enc_entries(t, n - 1) + spec_enc32(t[n - 1] + 32768)
    }
}

/// The byte count of `n` encoded table entries.
pub proof fn lemma_enc_entries_len(t: Seq<i32>, n: int)
    requires
        0 <= n,
    ensures
        spec_enc_entries(t, n).len() == 4 * n,
    decreases n,
{
    if n > 0 {
        lemma_enc_entries_len(t, n - 1);
    }
}

/// The five records of one oscillator, tagged from `base`.
pub open spec fn spec_ser_osc(base: u8, o: OscModel) -> Seq<u8> {
    spec_rec(base, spec_wave_payload(o.wave)) + spec_rec(
        (base + 1) as u8,
        spec_enc32(spec_off32(o.amp as int)),
    ) + spec_rec((base + 2) as u8, spec_enc32(o.phase as int)) + spec_rec(
        (base + 3) as u8,
        spec_enc32(spec_off32(o.tune as int)),
    ) + spec_rec((base + 4) as u8, spec_enc64(o.phi as int))
}

/// The serialized form of a model: all fields, in tag order.
pub open spec fn spec_ser(m: Model) -> Seq<u8> {
    spec_rec(1, seq![m.y as u8]) + spec_rec(2, seq![m.octave as u8]) + spec_rec(
        3,
        seq![m.inactive.0, m.inactive.1, m.inactive.2],
    ) + spec_rec(4, seq![m.active.0, m.active.1, m.active.2]) + spec_rec(5, m.notes)
        + spec_ser_osc(6, m.osc0) + spec_ser_osc(11, m.osc1) + spec_ser_osc(16, m.osc2)
        + spec_rec(21, spec_enc32(spec_off32(m.volume as int))) + spec_rec(
        22,
        spec_enc64(m.t as int),
    )
}

/// The table entries a custom waveform payload carries: each travels
/// offset by full scale, so the wire value is the entry plus 32768.
pub open spec fn spec_dec_entries(payload: Seq<u8>, count: int) -> Seq<i32> {
    Seq::new(count as nat, |i: int| (spec_le32(payload.subrange(5 + 4 * i, 9 + 4 * i))
        - 32768) as i32)
}

/// Whether every entry of a custom waveform payload is in Q15 range.
pub open spec fn spec_entries_valid(payload: Seq<u8>, count: int) -> bool {
    forall|i: int| 0 <= i < count ==> #[trigger] spec_le32(
        payload.subrange(5 + 4 * i, 9 + 4 * i),
    ) <= 65536
}

/// What one known record does to the model under construction; `None`
/// when its payload fails validation. A tag outside the format is
/// skipped, leaving the model as it is.
pub open spec fn spec_apply(tag: u8, payload: Seq<u8>, m: Model) -> Option<Model> {
    if tag == 1 {
        if payload.len() == 1 && payload[0] <= 7 {
            Some(Model { y: payload[0] as i8, ..m })
        } else {
            None
        }
    } else if tag == 2 {
        if payload.len() == 1 && payload[0] <= 8 {
            Some(Model { octave: payload[0] as i8, ..m })
        } else {
            None
        }
    } else if tag == 3 {
        if payload.len() == 3 {
            Some(Model { inactive: Color(payload[0], payload[1], payload[2]), ..m })
        } else {
            None
        }
    } else if tag == 4 {
        if payload.len() == 3 {
            Some(Model { active: Color(payload[0], payload[1], payload[2]), ..m })
        } else {
            None
        }
    } else if tag == 5 {
        if payload.len() == 13 {
            Some(Model { notes: payload, ..m })
        } else {
            None
        }
    } else if 6 <= tag <= 20 {
        let which = (tag - 6) / 5;
        let field = (tag - 6) % 5;
        let o = if which == 0 {
            m.osc0
        } else if which == 1 {
            m.osc1
        } else {
            m.osc2
        };
        match spec_apply_osc(field, payload, o) {
            Option::None => None,
            Option::Some(o2) => Some(
                if which == 0 {
                    Model { osc0: o2, ..m }
                } else if which == 1 {
                    Model { osc1: o2, ..m }
                } else {
                    Model { osc2: o2, ..m }
                },
            ),
        }
    } else if tag == 21 {
        if payload.len() == 4 && 0x8000_0000 <= spec_le32(payload) <= 0x8000_8000 {
            Some(Model { volume: (spec_le32(payload) - 0x8000_0000) as i32, ..m })
        } else {
            None
        }
    } else if tag == 22 {
        if payload.len() == 8 {
            Some(Model { t: spec_le64(payload) as u64, ..m })
        } else {
            None
        }
    } else {
        Some(m)
    }
}

/// What one oscillator record does to its oscillator model.
pub open spec fn spec_apply_osc(field: int, payload: Seq<u8>, o: OscModel) -> Option<OscModel> {
    if field == 0 {
        if payload.len() == 1 && payload[0] <= 3 {
            Some(OscModel { wave: WaveModel { kind: payload[0] as int, table: Seq::empty() }, ..o })
        } else if payload.len() >= 5 && payload[0] == 4 {
            let count = spec_le32(payload.subrange(1, 5));
            if 2 <= count <= 65536 && payload.len() == 5 + 4 * count && spec_entries_valid(
                payload,
                count,
            ) {
                Some(
                    OscModel {
                        wave: WaveModel { kind: 4, table: spec_dec_entries(payload, count) },
                        ..o
                    },
                )
            } else {
                None
            }
        } else {
            None
        }
    } else if field == 1 {
        if payload.len() == 4 && 0x8000_0000 <= spec_le32(payload) <= 0x8000_8000 {
            Some(OscModel { amp: (spec_le32(payload) - 0x8000_0000) as i32, ..o })
        } else {
            None
        }
    } else if field == 2 {
        if payload.len() == 4 {
            Some(OscModel { phase: spec_le32(payload) as u32, ..o })
        } else {
            None
        }
    } else if field == 3 {
        if payload.len() == 4 && 0x8000_0000 - 1_200_000 <= spec_le32(payload) <= 0x8000_0000
            + 1_200_000 {
            Some(OscModel { tune: (spec_le32(payload) - 0x8000_0000) as i32, ..o })
        } else {
            None
        }
    } else {
        if payload.len() == 8 {
            Some(OscModel { phi: spec_le64(payload) as u64, ..o })
        } else {
            None
        }
    }
}

/// Parse a record stream onto a model: apply each record in turn; fail
/// on a truncated record or an invalid payload; succeed at the end.
pub open spec fn spec_parse_from(bytes: Seq<u8>, m: Model) -> Option<Model>
    decreases bytes.len(),
{
    if bytes.len() == 0 {
        Some(m)
    } else if bytes.len() < 5 {
        None
    } else {
        let len = spec_le32(bytes.subrange(1, 5));
        if bytes.len() < 5 + len {
            None
        } else {
            match spec_apply(bytes[0], bytes.subrange(5, 5 + len), m) {
                Option::None => None,
                Option::Some(m2) => spec_parse_from(bytes.skip(5 + len), m2),
            }
        }
    }
}

/// What a byte string restores to: the record stream applied over the
/// default instance, or nothing when the stream is broken.
pub open spec fn spec_parse(bytes: Seq<u8>) -> Option<Model> {
    spec_parse_from(bytes, default_model())
}

/// The error of a failed restore: the byte string did not describe an
/// instance.
#[derive(Clone, Copy, Debug, PartialEq, Eq, Structural)]
pub enum StateMigrationError {
    Malformed,
}

fn push_u32(out: &mut Vec<u8>, v: u32) -> (nothing: ())
    ensures
        final(out)@ == old(out)@ + spec_enc32(v as int),
{
    let ghost pre = out@;
    out.push((v % 256) as u8);
    out.push(((v / 256) % 256) as u8);
    out.push(((v / 65536) % 256) as u8);
    out.push(((v / 16777216) % 256) as u8);
    proof {
        assert(out@ =~= pre + spec_enc32(v as int));
    }
}

fn push_u64(out: &mut Vec<u8>, v: u64) -> (nothing: ())
    ensures
        final(out)@ == old(out)@ + spec_enc64(v as int),
{
    let ghost pre = out@;
    push_u32(out, (v % 0x1_0000_0000) as u32);
    push_u32(out, (v / 0x1_0000_0000) as u32);
    proof {
        assert(out@ =~= pre + spec_enc64(v as int));
    }
}

/// Push a record header: the tag and the payload length.
fn push_header(out: &mut Vec<u8>, tag: u8, len: u32) -> (nothing: ())
    ensures
        final(out)@ == old(out)@ + seq![tag] + spec_enc32(len as int),
{
    let ghost pre = out@;
    out.push(tag);
    push_u32(out, len);
    proof {
        assert(out@ =~= pre + seq![tag] + spec_enc32(len as int));
    }
}

/// Serialize one oscillator's five records.
#[verifier::rlimit(100)]
fn ser_osc(out: &mut Vec<u8>, base: u8, o: &Osc) -> (nothing: ())
    requires
        o.wf(),
        base <= 16,
    ensures
        final(out)@ == old(out)@ + spec_ser_osc(base, abs_osc(*o)),
{
    let ghost pre = out@;
    let ghost om = abs_osc(*o);
    match &o.waveform {
        Waveform::Sine => {
            push_header(out, base, 1);
            out.push(0);
        },
        Waveform::Tri => {
            push_header(out, base, 1);
            out.push(1);
        },
        Waveform::Saw => {
            push_header(out, base, 1);
            out.push(2);
        },
        Waveform::Square => {
            push_header(out, base, 1);
            out.push(3);
        },
        Waveform::Raw(t) => {
            let count: usize = t.data.len();
            proof {
                lemma_enc_entries_len(t.data@, count as int);
            }
            push_header(out, base, (5 + 4 * count) as u32);
            out.push(4);
            push_u32(out, count as u32);
            let ghost mid = out@;
            let mut i: usize = 0;
            while i < count
                invariant
                    i <= count,
                    count == t.data@.len(),
                    t.wf(),
                    out@ == mid + spec_enc_entries(t.data@, i as int),
                decreases count - i,
            {
                let e: i32 = t.data[i];
                push_u32(out, (e + 32768) as u32);
                i += 1;
            }
        },
    }
    proof {
        assert(out@ =~= pre + spec_rec(base, spec_wave_payload(om.wave)));
    }
    let ghost p1 = out@;
    push_header(out, base + 1, 4);
    push_u32(out, ((o.amp as i64) + 0x8000_0000) as u32);
    proof {
        assert(out@ =~= p1 + spec_rec((base + 1) as u8, spec_enc32(spec_off32(om.amp as int))));
    }
    let ghost p2 = out@;
    push_header(out, base + 2, 4);
    push_u32(out, o.phase);
    let ghost p3 = out@;
    push_header(out, base + 3, 4);
    let tune_off: u32 = ((o.tune as i64) + 0x8000_0000) as u32;
    push_u32(out, tune_off);
    proof {
        assert(out@ =~= p3 + spec_rec((base + 3) as u8, spec_enc32(spec_off32(om.tune as int))));
    }
    let ghost p4 = out@;
    push_header(out, base + 4, 8);
    push_u64(out, o.phi);
    proof {
        assert(out@ =~= pre + spec_ser_osc(base, om));
    }
}

/// Serialize an instance: every field of its state, in tag order. Total
/// over usable instances; the module's serialize-to-bytes entry point.
#[verifier::rlimit(60)]
pub fn serialize(p: &Program) -> (r: Vec<u8>)
    requires
        p.wf(),
    ensures
        r@ == spec_ser(abs(*p)),
{
    let ghost m = abs(*p);
    let mut out: Vec<u8> = Vec::new();
    push_header(&mut out, 1, 1);
    out.push(p.piano.y as u8);
    proof {
        assert(out@ =~= spec_rec(1, seq![m.y as u8]));
    }
    let ghost s1 = out@;
    push_header(&mut out, 2, 1);
    out.push(p.piano.octave as u8);
    proof {
        assert(out@ =~= s1 + spec_rec(2, seq![m.octave as u8]));
    }
    let ghost s2 = out@;
    push_header(&mut out, 3, 3);
    out.push(p.piano.inactive.0);
    out.push(p.piano.inactive.1);
    out.push(p.piano.inactive.2);
    proof {
        assert(out@ =~= s2 + spec_rec(3, seq![m.inactive.0, m.inactive.1, m.inactive.2]));
    }
    let ghost s3 = out@;
    push_header(&mut out, 4, 3);
    out.push(p.piano.active.0);
    out.push(p.piano.active.1);
    out.push(p.piano.active.2);
    proof {
        assert(out@ =~= s3 + spec_rec(4, seq![m.active.0, m.active.1, m.active.2]));
    }
    let ghost s4 = out@;
    push_header(&mut out, 5, 13);
    let ghost s4h = out@;
    let mut j: usize = 0;
    while j < 13
        invariant
            j <= 13,
            p.piano.notes@.len() == 13,
            out@ == s4h + p.piano.notes@.subrange(0, j as int),
        decreases 13 - j,
    {
        out.push(p.piano.notes[j]);
        proof {
            assert(out@ =~= s4h + p.piano.notes@.subrange(0, j + 1));
        }
        j += 1;
    }
    proof {
        assert(p.piano.notes@.subrange(0, 13) =~= m.notes);
        assert(out@ =~= s4 + spec_rec(5, m.notes));
    }
    ser_osc(&mut out, 6, &p.osc0);
    ser_osc(&mut out, 11, &p.osc1);
    ser_osc(&mut out, 16, &p.osc2);
    let ghost s7 = out@;
    push_header(&mut out, 21, 4);
    push_u32(&mut out, ((p.volume as i64) + 0x8000_0000) as u32);
    proof {
        assert(out@ =~= s7 + spec_rec(21, spec_enc32(spec_off32(m.volume as int))));
    }
    let ghost s8 = out@;
    push_header(&mut out, 22, 8);
    push_u64(&mut out, p.t);
    proof {
        assert(out@ =~= spec_ser(m));
    }
    out
}

fn read_u32(bytes: &[u8], pos: usize) -> (r: u32)
    requires
        pos + 4 <= bytes@.len(),
    ensures
        r == spec_le32(bytes@.subrange(pos as int, pos + 4)),
{
    let b0 = bytes[pos] as u32;
    let b1 = bytes[pos + 1] as u32;
    let b2 = bytes[pos + 2] as u32;
    let b3 = bytes[pos + 3] as u32;
    b0 + 256 * b1 + 65536 * b2 + 16777216 * b3
}

fn read_u64(bytes: &[u8], pos: usize) -> (r: u64)
    requires
        pos + 8 <= bytes@.len(),
    ensures
        r == spec_le64(bytes@.subrange(pos as int, pos + 8)),
{
    let _n: usize = bytes.len();
    let lo = read_u32(bytes, pos);
    let hi = read_u32(bytes, pos + 4);
    proof {
        let s = bytes@.subrange(pos as int, pos + 8);
        assert(s.subrange(0, 4) =~= bytes@.subrange(pos as int, pos + 4));
        assert(s.subrange(4, 8) =~= bytes@.subrange(pos + 4, pos + 8));
    }
    lo as u64 + 0x1_0000_0000u64 * hi as u64
}

/// Apply one oscillator record. `true` means the payload was valid and
/// the oscillator took it; `false` leaves the oscillator untouched.
#[verifier::rlimit(100)]
fn apply_osc(osc: &mut Osc, field: u8, bytes: &[u8], start: usize, len: usize) -> (ok: bool)
    requires
        field <= 4,
        start + len <= bytes@.len(),
        old(osc).wf(),
    ensures
        ({
            let payload = bytes@.subrange(start as int, start + len);
            let res = spec_apply_osc(field as int, payload, abs_osc(*old(osc)));
            if ok {
                res == Some(abs_osc(*final(osc))) && final(osc).wf()
            } else {
                res is None && *final(osc) == *old(osc)
            }
        }),
{
    let ghost payload = bytes@.subrange(start as int, start + len);
    if field == 0 {
        if len == 1 {
            let k = bytes[start];
            if k == 0 {
                osc.waveform = Waveform::Sine;
                true
            } else if k == 1 {
                osc.waveform = Waveform::Tri;
                true
            } else if k == 2 {
                osc.waveform = Waveform::Saw;
                true
            } else if k == 3 {
                osc.waveform = Waveform::Square;
                true
            } else {
                false
            }
        } else if len >= 5 && bytes[start] == 4 {
            let count32 = read_u32(bytes, start + 1);
            proof {
                assert(payload.subrange(1, 5) =~= bytes@.subrange(start + 1, start + 5));
            }
            if count32 < 2 || count32 > 65536 {
                return false;
            }
            let count = count32 as usize;
            if len != 5 + 4 * count {
                return false;
            }
            let mut data: Vec<i32> = Vec::new();
            let mut i: usize = 0;
            while i < count
                invariant
                    i <= count,
                    count == count32,
                    2 <= count <= 65536,
                    len == 5 + 4 * count,
                    start + len <= bytes@.len(),
                    payload == bytes@.subrange(start as int, start + len),
                    data@.len() == i,
                    forall|j: int| 0 <= j < i ==> #[trigger] spec_le32(
                        payload.subrange(5 + 4 * j, 9 + 4 * j),
                    ) <= 65536,
                    forall|j: int| 0 <= j < i ==> #[trigger] data@[j] == spec_le32(
                        payload.subrange(5 + 4 * j, 9 + 4 * j),
                    ) - 32768,
                decreases count - i,
            {
                let _n: usize = bytes.len();
                let e = read_u32(bytes, start + 5 + 4 * i);
                proof {
                    assert(payload.subrange(5 + 4 * (i as int), 9 + 4 * (i as int))
                        =~= bytes@.subrange(start + 5 + 4 * (i as int), start + 9 + 4 * (
                    i as int)));
                }
                if e > 65536 {
                    proof {
                        assert(!spec_entries_valid(payload, count as int));
                    }
                    return false;
                }
                data.push((e as i32) - 32768);
                i += 1;
            }
            proof {
                assert(spec_entries_valid(payload, count as int));
                assert(data@ =~= spec_dec_entries(payload, count as int));
            }
            osc.waveform = Waveform::Raw(Wavetable { data });
            proof {
                let res = spec_apply_osc(field as int, payload, abs_osc(*old(osc)));
                assert(res is Some);
                assert(res.unwrap() =~~= abs_osc(*osc));
            }
            true
        } else {
            false
        }
    } else if field == 1 {
        if len != 4 {
            return false;
        }
        let v = read_u32(bytes, start);
        if 0x8000_0000u32 <= v && v <= 0x8000_8000u32 {
            osc.amp = (v - 0x8000_0000u32) as i32;
            true
        } else {
            false
        }
    } else if field == 2 {
        if len != 4 {
            return false;
        }
        osc.phase = read_u32(bytes, start);
        true
    } else if field == 3 {
        if len != 4 {
            return false;
        }
        let v = read_u32(bytes, start);
        if 0x8000_0000u32 - 1_200_000 <= v && v <= 0x8000_0000u32 + 1_200_000 {
            osc.tune = ((v as i64) - 0x8000_0000) as i32;
            true
        } else {
            false
        }
    } else {
        if len != 8 {
            return false;
        }
        osc.phi = read_u64(bytes, start);
        true
    }
}

/// Restore an instance from bytes: the module's restore-from-bytes entry
/// point. Total over every byte string, and deterministic: a string
/// either describes an instance, which is returned, or it does not, and
/// the error is returned — nothing else can happen.
#[verifier::rlimit(100)]
pub fn deserialize(bytes: &[u8]) -> (r: Result<Program, StateMigrationError>)
    ensures
        match r {
            Ok(p) => spec_parse(bytes@) == Some(abs(p)) && p.wf(),
            Err(_) => spec_parse(bytes@) is None,
        },
{
    let mut p = Program::default();
    proof {
        lemma_abs_default(p);
    }
    let mut pos: usize = 0;
    proof {
        assert(bytes@.skip(0) =~= bytes@);
    }
    while pos < bytes.len()
        invariant
            pos <= bytes@.len(),
            p.wf(),
            spec_parse_from(bytes@.skip(pos as int), abs(p)) == spec_parse(bytes@),
        decreases bytes@.len() - pos,
    {
        let ghost s = bytes@.skip(pos as int);
        let ghost m = abs(p);
        let rem = bytes.len() - pos;
        if rem < 5 {
            return Err(StateMigrationError::Malformed);
        }
        let tag = bytes[pos];
        let lv32 = read_u32(bytes, pos + 1);
        proof {
            assert(s.subrange(1, 5) =~= bytes@.subrange(pos + 1, pos + 5));
            assert(s[0] == tag);
        }
        if ((rem - 5) as u64) < lv32 as u64 {
            return Err(StateMigrationError::Malformed);
        }
        let lv = lv32 as usize;
        let start = pos + 5;
        let ghost payload = bytes@.subrange(start as int, start + lv);
        proof {
            assert(s.subrange(5, 5 + lv) =~= payload);
        }
        let ok: bool;
        if tag == 1 {
            if lv == 1 && bytes[start] <= 7 {
                p.piano.y = bytes[start] as i8;
                ok = true;
            } else {
                ok = false;
            }
        } else if tag == 2 {
            if lv == 1 && bytes[start] <= 8 {
                p.piano.octave = bytes[start] as i8;
                ok = true;
            } else {
                ok = false;
            }
        } else if tag == 3 {
            if lv == 3 {
                p.piano.inactive = Color(bytes[start], bytes[start + 1], bytes[start + 2]);
                ok = true;
            } else {
                ok = false;
            }
        } else if tag == 4 {
            if lv == 3 {
                p.piano.active = Color(bytes[start], bytes[start + 1], bytes[start + 2]);
                ok = true;
            } else {
                ok = false;
            }
        } else if tag == 5 {
            if lv == 13 {
                let mut j: usize = 0;
                while j < 13
                    invariant
                        j <= 13,
                        p.piano.notes@.len() == 13,
                        start + 13 <= bytes@.len(),
                        forall|k: int| 0 <= k < j ==> p.piano.notes@[k] == bytes@[start
                            + k],
                        p.piano.y == m.y,
                        p.piano.octave == m.octave,
                        p.piano.inactive == m.inactive,
                        p.piano.active == m.active,
                        abs_osc(p.osc0) == m.osc0,
                        abs_osc(p.osc1) == m.osc1,
                        abs_osc(p.osc2) == m.osc2,
                        p.volume == m.volume,
                        p.t == m.t,
                        p.wf(),
                    decreases 13 - j,
                {
                    let _n: usize = bytes.len();
                    p.piano.notes[j] = bytes[start + j];
                    j += 1;
                }
                proof {
                    assert(p.piano.notes@ =~= payload);
                }
                ok = true;
            } else {
                ok = false;
            }
        } else if 6 <= tag && tag <= 20 {
            let which = (tag - 6) / 5;
            let field = (tag - 6) % 5;
            if which == 0 {
                ok = apply_osc(&mut p.osc0, field, bytes, start, lv);
            } else if which == 1 {
                ok = apply_osc(&mut p.osc1, field, bytes, start, lv);
            } else {
                ok = apply_osc(&mut p.osc2, field, bytes, start, lv);
            }
        } else if tag == 21 {
            if lv == 4 {
                let v = read_u32(bytes, start);
                if 0x8000_0000u32 <= v && v <= 0x8000_8000u32 {
                    p.volume = (v - 0x8000_0000u32) as i32;
                    ok = true;
                } else {
                    ok = false;
                }
            } else {
                ok = false;
            }
        } else if tag == 22 {
            if lv == 8 {
                p.t = read_u64(bytes, start);
                ok = true;
            } else {
                ok = false;
            }
        } else {
            ok = true;
        }
        if !ok {
            proof {
                assert(spec_apply(tag, payload, m) is None);
            }
            return Err(StateMigrationError::Malformed);
        }
        proof {
            let res = spec_apply(tag, payload, m);
            assert(res is Some);
            assert(res.unwrap() =~~= abs(p));
            assert(s.skip(5 + lv) =~= bytes@.skip(pos + 5 + lv));
        }
        pos = pos + 5 + lv;
    }
    proof {
        assert(bytes@.skip(pos as int) =~= Seq::<u8>::empty());
    }
    Ok(p)
}

/// Parsing one well-formed record applies it and moves on.
pub proof fn lemma_parse_step(tag: u8, payload: Seq<u8>, rest: Seq<u8>, m: Model)
    requires
        payload.len() < 0x1_0000_0000,
        spec_apply(tag, payload, m) is Some,
    ensures
        spec_parse_from(spec_rec(tag, payload) + rest, m) == spec_parse_from(
            rest,
            spec_apply(tag, payload, m).unwrap(),
        ),
{
    let all = spec_rec(tag, payload) + rest;
    let len = payload.len() as int;
    lemma_enc32_round(len);
    assert(all.subrange(1, 5) =~= spec_enc32(len));
    assert(all[0] == tag);
    assert(all.len() == 5 + len + rest.len());
    assert(all.subrange(5, 5 + len) =~= payload);
    assert(all.skip(5 + len) =~= rest);
}


/// The validity a model needs to cross the serialization boundary, with
/// every waveform one of the canonical shapes — which is true of every
/// state reachable from the default instance, since no input event
/// installs a custom table.
pub open spec fn model_canonical_wf(m: Model) -> bool {
    &&& 0 <= m.y <= 7
    &&& 0 <= m.octave <= 8
    &&& m.notes.len() == 13
    &&& canonical_osc_wf(m.osc0)
    &&& canonical_osc_wf(m.osc1)
    &&& canonical_osc_wf(m.osc2)
    &&& 0 <= m.volume <= 32768
}

/// Oscillator-model validity with a canonical waveform.
pub open spec fn canonical_osc_wf(o: OscModel) -> bool {
    &&& 0 <= o.wave.kind <= 3
    &&& o.wave.table == Seq::<i32>::empty()
    &&& 0 <= o.amp <= 32768
    &&& -1_200_000 <= o.tune <= 1_200_000
}

/// A model with one oscillator replaced.
pub open spec fn model_with_osc(m: Model, which: int, o: OscModel) -> Model {
    if which == 0 {
        Model { osc0: o, ..m }
    } else if which == 1 {
        Model { osc1: o, ..m }
    } else {
        Model { osc2: o, ..m }
    }
}

/// Parsing one oscillator's five records replaces that oscillator.
#[verifier::rlimit(100)]
proof fn lemma_parse_osc(base: u8, o: OscModel, rest: Seq<u8>, m: Model)
    requires
        base == 6 || base == 11 || base == 16,
        canonical_osc_wf(o),
    ensures
        spec_parse_from(spec_ser_osc(base, o) + rest, m) == spec_parse_from(
            rest,
            model_with_osc(m, (base - 6) as int / 5, o),
        ),
{
    let a0 = spec_rec(base, spec_wave_payload(o.wave));
    let a1 = spec_rec((base + 1) as u8, spec_enc32(spec_off32(o.amp as int)));
    let a2 = spec_rec((base + 2) as u8, spec_enc32(o.phase as int));
    let a3 = spec_rec((base + 3) as u8, spec_enc32(spec_off32(o.tune as int)));
    let a4 = spec_rec((base + 4) as u8, spec_enc64(o.phi as int));
    lemma_enc32_round(spec_off32(o.amp as int));
    lemma_enc32_round(o.phase as int);
    lemma_enc32_round(spec_off32(o.tune as int));
    lemma_enc64_round(o.phi as int);
    let r4 = a4 + rest;
    let r3 = a3 + r4;
    let r2 = a2 + r3;
    let r1 = a1 + r2;
    lemma_concat_associative(a0 + a1 + a2 + a3, a4, rest);
    lemma_concat_associative(a0 + a1 + a2, a3, r4);
    lemma_concat_associative(a0 + a1, a2, r3);
    lemma_concat_associative(a0, a1, r2);
    assert(spec_ser_osc(base, o) + rest == a0 + r1);
    assert(spec_wave_payload(o.wave) =~= seq![o.wave.kind as u8]);
    let m1 = spec_apply(base, spec_wave_payload(o.wave), m).unwrap();
    lemma_parse_step(base, spec_wave_payload(o.wave), r1, m);
    let m2 = spec_apply((base + 1) as u8, spec_enc32(spec_off32(o.amp as int)), m1).unwrap();
    lemma_parse_step((base + 1) as u8, spec_enc32(spec_off32(o.amp as int)), r2, m1);
    let m3 = spec_apply((base + 2) as u8, spec_enc32(o.phase as int), m2).unwrap();
    lemma_parse_step((base + 2) as u8, spec_enc32(o.phase as int), r3, m2);
    let m4 = spec_apply((base + 3) as u8, spec_enc32(spec_off32(o.tune as int)), m3).unwrap();
    lemma_parse_step((base + 3) as u8, spec_enc32(spec_off32(o.tune as int)), r4, m3);
    let m5 = spec_apply((base + 4) as u8, spec_enc64(o.phi as int), m4).unwrap();
    lemma_parse_step((base + 4) as u8, spec_enc64(o.phi as int), rest, m4);
    assert(m5 =~~= model_with_osc(m, (base - 6) as int / 5, o));
}

/// Round trip: restoring what serialize produced yields exactly the
/// state that was serialized — byte serialization loses nothing of an
/// instance reachable from the default one.
#[verifier::rlimit(100)]
pub proof fn lemma_restore_after_serialize(m: Model)
    requires
        model_canonical_wf(m),
    ensures
        spec_parse(spec_ser(m)) == Some(m),
{
    let a1 = spec_rec(1, seq![m.y as u8]);
    let a2 = spec_rec(2, seq![m.octave as u8]);
    let a3 = spec_rec(3, seq![m.inactive.0, m.inactive.1, m.inactive.2]);
    let a4 = spec_rec(4, seq![m.active.0, m.active.1, m.active.2]);
    let a5 = spec_rec(5, m.notes);
    let o1 = spec_ser_osc(6, m.osc0);
    let o2 = spec_ser_osc(11, m.osc1);
    let o3 = spec_ser_osc(16, m.osc2);
    let a21 = spec_rec(21, spec_enc32(spec_off32(m.volume as int)));
    let a22 = spec_rec(22, spec_enc64(m.t as int));
    lemma_enc32_round(spec_off32(m.volume as int));
    lemma_enc64_round(m.t as int);

    let rt = a22 + Seq::<u8>::empty();
    assert(rt =~= a22);
    let rv = a21 + rt;
    let ro3 = o3 + rv;
    let ro2 = o2 + ro3;
    let ro1 = o1 + ro2;
    let r5 = ro1;
    let r4 = a5 + r5;
    let r3 = a4 + r4;
    let r2 = a3 + r3;
    let r1 = a2 + r2;
    lemma_concat_associative(a1 + a2 + a3 + a4 + a5 + o1 + o2 + o3, a21, a22);
    assert(spec_ser(m) == (a1 + a2 + a3 + a4 + a5 + o1 + o2 + o3) + rv);
    lemma_concat_associative(a1 + a2 + a3 + a4 + a5 + o1 + o2, o3, rv);
    assert(spec_ser(m) == (a1 + a2 + a3 + a4 + a5 + o1 + o2) + ro3);
    lemma_concat_associative(a1 + a2 + a3 + a4 + a5 + o1, o2, ro3);
    assert(spec_ser(m) == (a1 + a2 + a3 + a4 + a5 + o1) + ro2);
    lemma_concat_associative(a1 + a2 + a3 + a4 + a5, o1, ro2);
    assert(spec_ser(m) == (a1 + a2 + a3 + a4 + a5) + ro1);
    lemma_concat_associative(a1 + a2 + a3 + a4, a5, r5);
    lemma_concat_associative(a1 + a2 + a3, a4, r4);
    lemma_concat_associative(a1 + a2, a3, r3);
    lemma_concat_associative(a1, a2, r2);
    assert(spec_ser(m) == a1 + r1);

    let m0 = default_model();
    let m1 = spec_apply(1, seq![m.y as u8], m0).unwrap();
    lemma_parse_step(1, seq![m.y as u8], r1, m0);
    let m2 = spec_apply(2, seq![m.octave as u8], m1).unwrap();
    lemma_parse_step(2, seq![m.octave as u8], r2, m1);
    let m3 = spec_apply(3, seq![m.inactive.0, m.inactive.1, m.inactive.2], m2).unwrap();
    lemma_parse_step(3, seq![m.inactive.0, m.inactive.1, m.inactive.2], r3, m2);
    let m4 = spec_apply(4, seq![m.active.0, m.active.1, m.active.2], m3).unwrap();
    lemma_parse_step(4, seq![m.active.0, m.active.1, m.active.2], r4, m3);
    let m5 = spec_apply(5, m.notes, m4).unwrap();
    lemma_parse_step(5, m.notes, r5, m4);

    lemma_parse_osc(6, m.osc0, ro2, m5);
    let m10 = model_with_osc(m5, 0, m.osc0);
    lemma_parse_osc(11, m.osc1, ro3, m10);
    let m15 = model_with_osc(m10, 1, m.osc1);
    lemma_parse_osc(16, m.osc2, rv, m15);
    let m20 = model_with_osc(m15, 2, m.osc2);

    let m21 = spec_apply(21, spec_enc32(spec_off32(m.volume as int)), m20).unwrap();
    lemma_parse_step(21, spec_enc32(spec_off32(m.volume as int)), rt, m20);
    let m22 = spec_apply(22, spec_enc64(m.t as int), m21).unwrap();
    lemma_parse_step(22, spec_enc64(m.t as int), Seq::<u8>::empty(), m21);

    assert(m22 =~~= m);
}

} // verus!
