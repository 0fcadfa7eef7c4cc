//! The piano pad layout: one octave of thirteen keys laid out over two
//! grid rows like a piano keyboard, each key holding the raw pressure of
//! its last pad event (zero when released).

use vstd::prelude::*;
use crate::color::Color;
use crate::pad;
use crate::pitch::{spec_note_of_midi, Note};

verus! {

/// The piano state: its grid row offset, the octave it plays, its two key
/// colors, and the thirteen key pressures.
pub struct Piano {
    /// Grid row the layout starts at.
    pub y: i8,
    /// Octave of the leftmost key.
    pub octave: i8,
    /// Color of a released key.
    pub inactive: Color,
    /// Color of a held key.
    pub active: Color,
    /// Raw pressure per key, zero when released.
    pub notes: Vec<u8>,
}

impl Piano {
    /// Usable piano state: thirteen keys, the layout within the grid, and
    /// the octave low enough that every key has a MIDI note number.
    pub open spec fn wf(&self) -> bool {
        &&& self.notes@.len() == 13
        &&& 0 <= self.y <= 7
        &&& 0 <= self.octave <= 8
    }
}

impl Default for Piano {
    /// Octave 4 on the bottom rows, white inactive and blue active keys,
    /// every key released.
    fn default() -> (r: Self)
        ensures
            r.y == 0,
            r.octave == 4,
            r.inactive == (Color(127, 127, 127)),
            r.active == (Color(127, 0, 0)),
            r.notes@ =~= seq![0u8, 0, 0, 0, 0, 0, 0, 0, 0, 0, 0, 0, 0],
            r.wf(),
    {
        let mut notes: Vec<u8> = Vec::new();
        let mut i: usize = 0;
        while i < 13
            invariant
                i <= 13,
                notes@.len() == i,
                forall|k: int| 0 <= k < i ==> notes@[k] == 0u8,
            decreases 13 - i,
        {
            notes.push(0);
            i += 1;
        }
        let r = Piano { y: 0, octave: 4, inactive: Color::white(), active: Color::blue(), notes };
        proof {
            assert(r.notes@ =~= seq![0u8, 0, 0, 0, 0, 0, 0, 0, 0, 0, 0, 0, 0]);
        }
        r
    }
}

/// The key a logical pad coordinate plays, relative to the layout's own
/// row: the white keys on the lower row, the black keys on the upper.
/// A coordinate outside the layout plays no key.
pub open spec fn spec_key_index(x: int, y: int) -> int {
    if x == 0 && y == 0 {
        0
    } else if x == 1 && y == 1 {
        1
    } else if x == 1 && y == 0 {
        2
    } else if x == 2 && y == 1 {
        3
    } else if x == 2 && y == 0 {
        4
    } else if x == 3 && y == 0 {
        5
    } else if x == 4 && y == 1 {
        6
    } else if x == 4 && y == 0 {
        7
    } else if x == 5 && y == 1 {
        8
    } else if x == 5 && y == 0 {
        9
    } else if x == 6 && y == 1 {
        10
    } else if x == 6 && y == 0 {
        11
    } else if x == 7 && y == 0 {
        12
    } else {
        -1
    }
}

/// The layout-relative column of a key.
pub open spec fn spec_key_col(k: int) -> int {
    if k == 0 {
        0
    } else if k <= 2 {
        1
    } else if k <= 4 {
        2
    } else if k == 5 {
        3
    } else if k <= 7 {
        4
    } else if k <= 9 {
        5
    } else if k <= 11 {
        6
    } else {
        7
    }
}

/// The layout-relative row of a key: one for the black keys, zero for
/// the white.
pub open spec fn spec_key_row(k: int) -> int {
    if k == 1 || k == 3 || k == 6 || k == 8 || k == 10 {
        1
    } else {
        0
    }
}

/// The flat output cell a key lights, given the layout's row offset.
pub open spec fn spec_key_cell(k: int, y_off: int) -> int {
    (spec_key_row(k) + y_off) * 9 + spec_key_col(k)
}

/// The color a key shows: active while held, inactive while released.
pub open spec fn spec_key_color(p: Piano, k: int) -> Color {
    if p.notes@[k] > 0 {
        p.active
    } else {
        p.inactive
    }
}

/// The output cells after the first `n` keys have been painted over
/// `cells`.
pub open spec fn spec_painted(p: Piano, cells: Seq<Color>, n: int) -> Seq<Color>
    decreases n,
{
    if n <= 0 {
        cells
    } else {
        spec_painted(p, cells, n - 1).update(spec_key_cell(n - 1, p.y as int), spec_key_color(p, n - 1))
    }
}

/// The note and pressure list of the first `n` keys, held keys only, in
/// key order.
pub open spec fn spec_notes_prefix(p: Piano, n: int) -> Seq<(Note, u8)>
    decreases n,
{
    if n <= 0 {
        Seq::empty()
    } else {
        let pre = spec_notes_prefix(p, n - 1);
        if p.notes@[n - 1] > 0 {
            pre.push((spec_note_of_midi((p.octave + 1) * 12 + (n - 1)), p.notes@[n - 1]))
        } else {
            pre
        }
    }
}

/// The held keys of the piano as notes: key `k` plays the MIDI note
/// `(octave + 1) * 12 + k`.
pub open spec fn spec_active_notes(p: Piano) -> Seq<(Note, u8)> {
    spec_notes_prefix(p, 13)
}

/// A piano with no key held sounds no note.
pub proof fn lemma_all_released_silent(p: Piano)
    requires
        p.wf(),
        forall|k: int| 0 <= k < 13 ==> p.notes@[k] == 0,
    ensures
        spec_active_notes(p).len() == 0,
{
    assert forall|n: int| 0 <= n <= 13 implies spec_notes_prefix(p, n).len() == 0 by {
        lemma_released_prefix(p, n);
    }
}

proof fn lemma_released_prefix(p: Piano, n: int)
    requires
        forall|k: int| 0 <= k < 13 ==> p.notes@[k] == 0,
        n <= 13,
    ensures
        spec_notes_prefix(p, n).len() == 0,
    decreases n,
{
    if n > 0 {
        lemma_released_prefix(p, n - 1);
    }
}

impl Piano {
    /// The held keys as `(note, pressure)` pairs, in key order. Every
    /// returned note has no detune and a positive pressure.
    pub fn notes(&self) -> (r: Vec<(Note, u8)>)
        requires
            self.wf(),
        ensures
            r@ == spec_active_notes(*self),
            r@.len() <= 13,
            forall|j: int| 0 <= j < r@.len() ==> (#[trigger] r@[j]).0.detune == 0 && r@[j].1
                > 0,
    {
        let mut r: Vec<(Note, u8)> = Vec::new();
        let mut i: usize = 0;
        while i < 13
            invariant
                i <= 13,
                self.wf(),
                r@ == spec_notes_prefix(*self, i as int),
                r@.len() <= i,
                forall|j: int| 0 <= j < r@.len() ==> (#[trigger] r@[j]).0.detune == 0
                    && r@[j].1 > 0,
            decreases 13 - i,
        {
            let v = self.notes[i];
            if v > 0 {
                let midi: i8 = (self.octave + 1) * 12 + i as i8;
                r.push((Note::from_midi(midi), v));
            }
            i += 1;
        }
        r
    }

    /// Record a pad event: the key under the event's coordinate (taken
    /// relative to the layout's row offset) takes the event's pressure;
    /// a coordinate outside the layout changes nothing.
    pub fn pad_in(&mut self, _t_micros: u64, input: pad::Input) -> (nothing: ())
        requires
            old(self).wf(),
        ensures
            final(self).y == old(self).y,
            final(self).octave == old(self).octave,
            final(self).inactive == old(self).inactive,
            final(self).active == old(self).active,
            ({
                let k = spec_key_index(
                    input.0.0 as int,
                    input.0.1 - old(self).y,
                );
                if 0 <= k < 13 {
                    final(self).notes@ == old(self).notes@.update(k, input.1)
                } else {
                    final(self).notes@ == old(self).notes@
                }
            }),
            final(self).wf(),
    {
        let ((x, y), pressure) = input;
        let xx: i16 = x as i16;
        let yy: i16 = y as i16 - self.y as i16;
        let k: i16 = if xx == 0 && yy == 0 {
            0
        } else if xx == 1 && yy == 1 {
            1
        } else if xx == 1 && yy == 0 {
            2
        } else if xx == 2 && yy == 1 {
            3
        } else if xx == 2 && yy == 0 {
            4
        } else if xx == 3 && yy == 0 {
            5
        } else if xx == 4 && yy == 1 {
            6
        } else if xx == 4 && yy == 0 {
            7
        } else if xx == 5 && yy == 1 {
            8
        } else if xx == 5 && yy == 0 {
            9
        } else if xx == 6 && yy == 1 {
            10
        } else if xx == 6 && yy == 0 {
            11
        } else if xx == 7 && yy == 0 {
            12
        } else {
            -1
        };
        if k >= 0 {
            self.notes[k as usize] = pressure;
        }
    }

    /// Paint the thirteen keys into a full pad output frame, each key in
    /// its active or inactive color at its grid cell.
    pub fn pad_out(&self, _t_micros: u64, output: &mut pad::Output) -> (nothing: ())
        requires
            self.wf(),
            old(output).wf(),
        ensures
            final(output).wf(),
            final(output).cells@ == spec_painted(*self, old(output).cells@, 13),
    {
        let mut i: usize = 0;
        while i < 13
            invariant
                i <= 13,
                self.wf(),
                output.wf(),
                output.cells@ == spec_painted(*self, old(output).cells@, i as int),
            decreases 13 - i,
        {
            let (x, y): (usize, usize) = if i == 0 {
                (0, 0)
            } else if i == 1 {
                (1, 1)
            } else if i == 2 {
                (1, 0)
            } else if i == 3 {
                (2, 1)
            } else if i == 4 {
                (2, 0)
            } else if i == 5 {
                (3, 0)
            } else if i == 6 {
                (4, 1)
            } else if i == 7 {
                (4, 0)
            } else if i == 8 {
                (5, 1)
            } else if i == 9 {
                (5, 0)
            } else if i == 10 {
                (6, 1)
            } else {
                if i == 11 {
                    (6, 0)
                } else {
                    (7, 0)
                }
            };
            let row: usize = y + self.y as usize;
            let cell: usize = row * 9 + x;
            let color = if self.notes[i] > 0 {
                self.active
            } else {
                self.inactive
            };
            output.cells[cell] = color;
            i += 1;
        }
    }
}

} // verus!
