//! The module lifecycle and the shared state it lives in.
//!
//! A [`Module`] is the operation table of one program version: stateless
//! but for the wavetable bank it builds when it is brought up. The
//! [`SharedState`] is the single cell holding the active module, the one
//! live instance and the running clock; the audio producer, the control
//! loop and the reload path all work through exclusive access to it.
//!
//! A reload is the [`SharedState::swap`] step: the replacement module is
//! handed in already constructed — so there is never a moment without a
//! valid module — and the instance migrates through bytes alone:
//! serialize, destroy, restore, falling back to the default instance
//! when the bytes do not restore. No pointer or in-process structure
//! crosses the swap; the old pair is consumed by the swap itself.

use vstd::prelude::*;
use crate::codec::{
    abs, abs_osc, abs_wave, deserialize, lemma_abs_default, lemma_restore_after_serialize,
    model_canonical_wf, serialize, spec_parse, spec_ser, wave_kind, StateMigrationError,
};
use crate::ctrl;
use crate::osc::{spec_osc_out, spec_osc_phi, Osc};
use crate::pad;
use crate::piano::{spec_notes_prefix, Piano};
use crate::pitch::Note;
use crate::program::{
    spec_ctrl_in, spec_mix, spec_mix_of, spec_sample_dt, spec_sample_out, Program,
};
use crate::wavetable::{spec_waveform_sample, Waveform, Wavetables};

verus! {

/// The operation table of one program version.
pub struct Module {
    /// The wavetable bank this version synthesizes from.
    pub tables: Wavetables,
}

impl Module {
    pub open spec fn wf(&self) -> bool {
        self.tables.wf()
    }

    /// Bring a module up: build its wavetable bank.
    pub fn new() -> (r: Module)
        ensures
            r.wf(),
    {
        Module { tables: Wavetables::new() }
    }

    /// Construct the default instance.
    pub fn construct_default(&self) -> (r: Program)
        ensures
            r.is_default(),
            r.wf(),
    {
        crate::program::default()
    }

    /// Serialize an instance to bytes; total over usable instances.
    pub fn serialize(&self, inst: &Program) -> (r: Vec<u8>)
        requires
            inst.wf(),
        ensures
            r@ == spec_ser(abs(*inst)),
    {
        serialize(inst)
    }

    /// Restore an instance from bytes, or report that they do not
    /// describe one.
    pub fn restore(&self, bytes: &[u8]) -> (r: Result<Program, StateMigrationError>)
        ensures
            match r {
                Ok(p) => spec_parse(bytes@) == Some(abs(p)) && p.wf(),
                Err(_) => spec_parse(bytes@) is None,
            },
    {
        deserialize(bytes)
    }

    /// Destroy an instance: it is consumed and ceases to exist.
    pub fn destroy(&self, inst: Program) -> (nothing: ())
    {
        let _ = inst;
    }

    /// Compute one stereo sample on an instance at clock `t_micros`.
    pub fn sample(&self, inst: &mut Program, t_micros: u64) -> (r: (i64, i64))
        requires
            self.wf(),
            old(inst).wf(),
        ensures
            final(inst).wf(),
            final(inst).piano == old(inst).piano,
            final(inst).volume == old(inst).volume,
            final(inst).t == t_micros,
            final(inst).osc0 == spec_mix_of(*old(inst), &self.tables, t_micros).0,
            final(inst).osc1 == spec_mix_of(*old(inst), &self.tables, t_micros).1,
            final(inst).osc2 == spec_mix_of(*old(inst), &self.tables, t_micros).2,
            r.0 == spec_sample_out(*old(inst), &self.tables, t_micros),
            r.1 == r.0,
            -1277952 <= r.0 <= 1277952,
    {
        inst.sample(&self.tables, t_micros)
    }

    /// Hand a pad event to an instance: the piano takes it, and the
    /// top-right pad when pressed resets the instance to its default.
    pub fn handle_pad_input(&self, inst: &mut Program, t_micros: u64, input: pad::Input) -> (nothing: ())
        requires
            old(inst).wf(),
        ensures
            final(inst).wf(),
            ({
                let ((x, y), v) = input;
                if x == 7 && y == 8 && v > 0 {
                    final(inst).is_default()
                } else {
                    {
                        &&& final(inst).piano.y == old(inst).piano.y
                        &&& final(inst).piano.octave == old(inst).piano.octave
                        &&& final(inst).piano.inactive == old(inst).piano.inactive
                        &&& final(inst).piano.active == old(inst).piano.active
                        &&& ({
                            let k = crate::piano::spec_key_index(
                                x as int,
                                y - old(inst).piano.y,
                            );
                            if 0 <= k < 13 {
                                final(inst).piano.notes@ == old(inst).piano.notes@.update(
                                    k,
                                    v,
                                )
                            } else {
                                final(inst).piano.notes@ == old(inst).piano.notes@
                            }
                        })
                        &&& final(inst).osc0 == old(inst).osc0
                        &&& final(inst).osc1 == old(inst).osc1
                        &&& final(inst).osc2 == old(inst).osc2
                        &&& final(inst).volume == old(inst).volume
                        &&& final(inst).t == old(inst).t
                    }
                }
            }),
    {
        inst.pad_in(t_micros, input);
    }

    /// Read the pad indicator state of an instance.
    pub fn produce_pad_output(&self, inst: &Program, t_micros: u64) -> (r: pad::Output)
        requires
            inst.wf(),
        ensures
            r.wf(),
            r.cells@ == crate::piano::spec_painted(inst.piano, pad::spec_clear_cells(), 13),
    {
        inst.pad_out(t_micros)
    }

    /// Hand a control event to an instance.
    pub fn handle_ctrl_input(&self, inst: &mut Program, t_micros: u64, input: ctrl::Input) -> (nothing: ())
        requires
            old(inst).wf(),
        ensures
            final(inst).wf(),
            *final(inst) == spec_ctrl_in(*old(inst), input),
    {
        inst.ctrl_in(t_micros, input);
    }

    /// Read the control indicator state of an instance.
    pub fn produce_ctrl_output(&self, inst: &mut Program, t_micros: u64) -> (r: ctrl::Output)
        ensures
            r.wf(),
            *final(inst) == *old(inst),
    {
        inst.ctrl_out(t_micros)
    }
}

/// The one shared cell: the active module, the one live instance, and
/// the running clock in microseconds. Exclusive access is the caller's
/// charge: every actor works on `&mut SharedState`, one at a time.
pub struct SharedState {
    pub module: Module,
    pub instance: Program,
    pub t_micros: u64,
}

impl SharedState {
    pub open spec fn wf(&self) -> bool {
        self.module.wf() && self.instance.wf()
    }

    /// Bring the system up: a fresh module and its default instance,
    /// the clock at zero.
    pub fn startup() -> (r: SharedState)
        ensures
            r.wf(),
            r.instance.is_default(),
            r.t_micros == 0u64,
    {
        let module = Module::new();
        let instance = module.construct_default();
        SharedState { module, instance, t_micros: 0 }
    }

    /// One audio frame: advance the clock and sample the instance. The
    /// sample is always within the fixed signal range, whatever state
    /// the instrument is in.
    pub fn audio_frame(&mut self, dt_micros: u64) -> (r: (i64, i64))
        requires
            old(self).wf(),
        ensures
            final(self).wf(),
            final(self).module == old(self).module,
            final(self).t_micros == (if old(self).t_micros + dt_micros <= u64::MAX {
                (old(self).t_micros + dt_micros) as u64
            } else {
                u64::MAX
            }),
            final(self).instance.piano == old(self).instance.piano,
            final(self).instance.volume == old(self).instance.volume,
            final(self).instance.t == final(self).t_micros,
            final(self).instance.osc0 == spec_mix_of(
                old(self).instance,
                &old(self).module.tables,
                final(self).t_micros,
            ).0,
            final(self).instance.osc1 == spec_mix_of(
                old(self).instance,
                &old(self).module.tables,
                final(self).t_micros,
            ).1,
            final(self).instance.osc2 == spec_mix_of(
                old(self).instance,
                &old(self).module.tables,
                final(self).t_micros,
            ).2,
            r.0 == spec_sample_out(
                old(self).instance,
                &old(self).module.tables,
                final(self).t_micros,
            ),
            r.1 == r.0,
            -1277952 <= r.0 <= 1277952,
    {
        self.t_micros = self.t_micros.saturating_add(dt_micros);
        self.module.sample(&mut self.instance, self.t_micros)
    }

    /// The reload step, atomic under the cell: the replacement module is
    /// already up (so a failed load never costs the running pair — the
    /// caller keeps the old state by not calling swap); the instance
    /// migrates through bytes: serialize, destroy, restore from the
    /// bytes, falling back to a fresh default instance when they do not
    /// restore. Returns whether the fallback was taken.
    pub fn swap(&mut self, replacement: Module) -> (fallback: bool)
        requires
            old(self).wf(),
            replacement.wf(),
        ensures
            final(self).wf(),
            final(self).module == replacement,
            final(self).t_micros == old(self).t_micros,
            match spec_parse(spec_ser(abs(old(self).instance))) {
                Option::Some(m) => !fallback && abs(final(self).instance) == m,
                Option::None => fallback && final(self).instance.is_default(),
            },
    {
        let bytes = self.module.serialize(&self.instance);
        let restored = self.module.restore(bytes.as_slice());
        let (instance, fallback) = match restored {
            Ok(p) => (p, false),
            Err(_) => {
                let p = replacement.construct_default();
                proof {
                    lemma_abs_default(p);
                }
                (p, true)
            },
        };
        self.module = replacement;
        self.instance = instance;
        fallback
    }
}

/// The artifact name whose appearance triggers a reload, as bytes:
/// `libprogram.so`.
pub open spec fn artifact_name() -> Seq<u8> {
    seq![108u8, 105, 98, 112, 114, 111, 103, 114, 97, 109, 46, 115, 111]
}

/// Whether a filesystem notification names the reload artifact: the
/// core reacts to exactly this name and nothing else.
pub fn is_reload_artifact(name: &[u8]) -> (r: bool)
    ensures
        r <==> name@ == artifact_name(),
{
    if name.len() != 13 {
        proof {
            assert(name@ != artifact_name());
        }
        return false;
    }
    let ok = name[0] == 108 && name[1] == 105 && name[2] == 98 && name[3] == 112
        && name[4] == 114 && name[5] == 111 && name[6] == 103 && name[7] == 114
        && name[8] == 97 && name[9] == 109 && name[10] == 46 && name[11] == 115
        && name[12] == 111;
    proof {
        if ok {
            assert(name@ =~= artifact_name());
        }
    }
    ok
}

/// Every waveform of the instance is a canonical shape. This holds of
/// every state reachable from the default instance, since no input
/// event installs a custom table.
pub open spec fn canonical_waves(p: Program) -> bool {
    wave_kind(p.osc0.waveform) <= 3 && wave_kind(p.osc1.waveform) <= 3 && wave_kind(
        p.osc2.waveform,
    ) <= 3
}

proof fn lemma_wave_sample_congr(w1: Waveform, w2: Waveform, bank: &Wavetables, pos: u32)
    requires
        abs_wave(w1) == abs_wave(w2),
    ensures
        spec_waveform_sample(&w1, bank, pos) == spec_waveform_sample(&w2, bank, pos),
{
    match (w1, w2) {
        (Waveform::Raw(t1), Waveform::Raw(t2)) => {
            assert(t1.data@ == t2.data@);
        },
        _ => {},
    }
}

proof fn lemma_osc_congr(oa: Osc, ob: Osc, bank: &Wavetables, dt: u64, note: Note)
    requires
        abs_osc(oa) == abs_osc(ob),
    ensures
        spec_osc_phi(oa, dt, note) == spec_osc_phi(ob, dt, note),
        spec_osc_out(oa, bank, dt, note) == spec_osc_out(ob, bank, dt, note),
{
    lemma_wave_sample_congr(
        oa.waveform,
        ob.waveform,
        bank,
        crate::osc::spec_osc_pos(oa, dt, note),
    );
}

proof fn lemma_notes_congr(p1: Piano, p2: Piano, n: int)
    requires
        p1.octave == p2.octave,
        p1.notes@ == p2.notes@,
    ensures
        spec_notes_prefix(p1, n) == spec_notes_prefix(p2, n),
    decreases n,
{
    if n > 0 {
        lemma_notes_congr(p1, p2, n - 1);
    }
}

proof fn lemma_mix_congr(
    a0: Osc,
    a1: Osc,
    a2: Osc,
    b0: Osc,
    b1: Osc,
    b2: Osc,
    bank: &Wavetables,
    dt: u64,
    notes: Seq<(Note, u8)>,
    n: int,
)
    requires
        abs_osc(a0) == abs_osc(b0),
        abs_osc(a1) == abs_osc(b1),
        abs_osc(a2) == abs_osc(b2),
    ensures
        ({
            let ra = spec_mix(a0, a1, a2, bank, dt, notes, n);
            let rb = spec_mix(b0, b1, b2, bank, dt, notes, n);
            abs_osc(ra.0) == abs_osc(rb.0) && abs_osc(ra.1) == abs_osc(rb.1) && abs_osc(ra.2)
                == abs_osc(rb.2) && ra.3 == rb.3
        }),
    decreases n,
{
    if n > 0 {
        lemma_mix_congr(a0, a1, a2, b0, b1, b2, bank, dt, notes, n - 1);
        let pa = spec_mix(a0, a1, a2, bank, dt, notes, n - 1);
        let pb = spec_mix(b0, b1, b2, bank, dt, notes, n - 1);
        let note = notes[n - 1].0;
        lemma_osc_congr(pa.0, pb.0, bank, dt, note);
        lemma_osc_congr(pa.1, pb.1, bank, dt, note);
        lemma_osc_congr(pa.2, pb.2, bank, dt, note);
    }
}

/// Two instances with the same abstract state sound the same: the next
/// sample is identical, and the states after it again have the same
/// abstract state — so all later samples agree too.
pub proof fn lemma_same_model_same_sound(
    p: Program,
    q: Program,
    bank: &Wavetables,
    t_micros: u64,
)
    requires
        abs(p) == abs(q),
    ensures
        spec_sample_out(p, bank, t_micros) == spec_sample_out(q, bank, t_micros),
        abs_osc(spec_mix_of(p, bank, t_micros).0) == abs_osc(spec_mix_of(q, bank, t_micros).0),
        abs_osc(spec_mix_of(p, bank, t_micros).1) == abs_osc(spec_mix_of(q, bank, t_micros).1),
        abs_osc(spec_mix_of(p, bank, t_micros).2) == abs_osc(spec_mix_of(q, bank, t_micros).2),
{
    lemma_notes_congr(p.piano, q.piano, 13);
    assert(spec_sample_dt(p, t_micros) == spec_sample_dt(q, t_micros));
    lemma_mix_congr(
        p.osc0,
        p.osc1,
        p.osc2,
        q.osc0,
        q.osc1,
        q.osc2,
        bank,
        spec_sample_dt(p, t_micros),
        crate::piano::spec_active_notes(p.piano),
        crate::piano::spec_active_notes(p.piano).len() as int,
    );
}

proof fn lemma_mix_keeps_waveforms(
    o0: Osc,
    o1: Osc,
    o2: Osc,
    bank: &Wavetables,
    dt: u64,
    notes: Seq<(Note, u8)>,
    n: int,
)
    ensures
        spec_mix(o0, o1, o2, bank, dt, notes, n).0.waveform == o0.waveform,
        spec_mix(o0, o1, o2, bank, dt, notes, n).1.waveform == o1.waveform,
        spec_mix(o0, o1, o2, bank, dt, notes, n).2.waveform == o2.waveform,
    decreases n,
{
    if n > 0 {
        lemma_mix_keeps_waveforms(o0, o1, o2, bank, dt, notes, n - 1);
    }
}

/// The default instance has canonical waveforms.
pub proof fn lemma_default_canonical(p: Program)
    requires
        p.is_default(),
    ensures
        canonical_waves(p),
{
}

/// No control event installs a custom table: canonical waveforms are
/// preserved by every control event.
pub proof fn lemma_ctrl_keeps_canonical(p: Program, input: ctrl::Input)
    requires
        canonical_waves(p),
    ensures
        canonical_waves(spec_ctrl_in(p, input)),
{
}

/// Sampling only advances the oscillators' accumulators: canonical
/// waveforms are preserved by every sample call. Together with the two
/// lemmas above and the pad handler's contract (which either touches
/// only the piano or resets to the default), every state reachable from
/// the default instance keeps canonical waveforms, so the round trip
/// law below covers all of them.
pub proof fn lemma_sample_keeps_canonical(p: Program, bank: &Wavetables, t_micros: u64)
    requires
        canonical_waves(p),
    ensures
        spec_mix_of(p, bank, t_micros).0.waveform == p.osc0.waveform,
        spec_mix_of(p, bank, t_micros).1.waveform == p.osc1.waveform,
        spec_mix_of(p, bank, t_micros).2.waveform == p.osc2.waveform,
{
    let notes = crate::piano::spec_active_notes(p.piano);
    lemma_mix_keeps_waveforms(
        p.osc0,
        p.osc1,
        p.osc2,
        bank,
        spec_sample_dt(p, t_micros),
        notes,
        notes.len() as int,
    );
}

/// Round-trip fidelity: the bytes of an instance reachable from the
/// default one restore to an instance with exactly the same abstract
/// state, and such an instance produces the same sample output as the
/// original at every later clock, its oscillators advancing in step.
pub proof fn lemma_round_trip_fidelity(p: Program, q: Program, bank: &Wavetables, t_micros: u64)
    requires
        p.wf(),
        canonical_waves(p),
        abs(q) == abs(p),
    ensures
        spec_parse(spec_ser(abs(p))) == Some(abs(q)),
        spec_sample_out(q, bank, t_micros) == spec_sample_out(p, bank, t_micros),
{
    assert(model_canonical_wf(abs(p)));
    lemma_restore_after_serialize(abs(p));
    lemma_same_model_same_sound(p, q, bank, t_micros);
}

} // verus!
