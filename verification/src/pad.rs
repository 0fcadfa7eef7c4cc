//! Wire codec for the grid-style pad controller.
//!
//! Decoding turns a raw MIDI frame into a pad event: a logical `(column,
//! row)` coordinate in the 9 by 9 grid together with the raw pressure byte.
//! Encoding pushes the full state of all 81 cells in one fixed-layout
//! system-exclusive frame; the setup handshake is a fixed ordered sequence
//! of four configuration frames.
//!
//! Grid geometry: logical `(column, row)` maps to the device cell byte
//! `(row + 1) * 10 + (column + 1)`; coordinates above the physical grid
//! saturate at its edge rather than wrap.

use vstd::prelude::*;
use crate::color::Color;

verus! {

/// A decoded pad event: logical `(column, row)` and the raw pressure byte.
pub type Input = ((i8, i8), u8);

/// The desired state of every pad cell, row-major, `row * 9 + column`.
pub struct Output {
    pub cells: Vec<Color>,
}

impl Output {
    /// An output frame is complete only with all 81 cells present.
    pub open spec fn wf(&self) -> bool {
        self.cells@.len() == 81
    }
}

/// The cell state of a dark frame: 81 cells, all off.
pub open spec fn spec_clear_cells() -> Seq<Color> {
    Seq::new(81, |i: int| Color(0, 0, 0))
}

/// A full output frame with every cell dark.
pub fn clear() -> (r: Output)
    ensures
        r.wf(),
        r.cells@ == spec_clear_cells(),
        forall|k: int| 0 <= k < 81 ==> r.cells@[k] == (Color(0, 0, 0)),
{
    let mut cells: Vec<Color> = Vec::new();
    let mut i: usize = 0;
    while i < 81
        invariant
            i <= 81,
            cells@.len() == i,
            forall|k: int| 0 <= k < i ==> cells@[k] == (Color(0, 0, 0)),
        decreases 81 - i,
    {
        cells.push(Color(0, 0, 0));
        i += 1;
    }
    proof {
        assert(cells@ =~= spec_clear_cells());
    }
    Output { cells }
}

/// Whether a raw cell byte lies on the grid: both decimal digits in 1 ..= 9.
pub open spec fn valid_cell_byte(b: u8) -> bool {
    1 <= b % 10 <= 9 && 1 <= b / 10 <= 9
}

/// What decoding a raw frame yields: the three note/pressure/control status
/// bytes carry a cell and a pressure byte; everything else is no event.
pub open spec fn spec_decode(raw: Seq<u8>) -> Option<Input> {
    if raw.len() >= 3 && (raw[0] == 0x90 || raw[0] == 0xA0 || raw[0] == 0xB0)
        && valid_cell_byte(raw[1]) {
        Some(
            (
                ((raw[1] % 10 - 1) as i8, (raw[1] / 10 - 1) as i8),
                raw[2],
            ),
        )
    } else {
        None
    }
}

/// Decode one raw frame. Total: any frame that is too short or whose bytes
/// fall outside the recognized ranges yields `None`.
pub fn decode(raw: &[u8]) -> (r: Option<Input>)
    ensures
        r == spec_decode(raw@),
{
    if raw.len() < 3 {
        return None;
    }
    let status = raw[0];
    if !(status == 0x90 || status == 0xA0 || status == 0xB0) {
        return None;
    }
    let cell = raw[1];
    let lo = cell % 10;
    let hi = cell / 10;
    if lo < 1 || hi < 1 || hi > 9 {
        return None;
    }
    Some((((lo - 1) as i8, (hi - 1) as i8), raw[2]))
}

/// Saturate a coordinate at the grid edge.
pub open spec fn sat8(v: i8) -> int {
    if v > 8 {
        8
    } else {
        v as int
    }
}

/// The device cell byte of a logical `(column, row)` coordinate:
/// `(row + 1) * 10 + (column + 1)`, with each coordinate saturating at 8.
pub fn pos_to_byte(x: i8, y: i8) -> (r: u8)
    requires
        x >= 0,
        y >= 0,
    ensures
        r == (sat8(y) + 1) * 10 + sat8(x) + 1,
{
    let xs: i8 = if x > 8 { 8 } else { x };
    let ys: i8 = if y > 8 { 8 } else { y };
    ((ys + 1) * 10 + (xs + 1)) as u8
}

/// The logical `(column, row)` coordinate of a device cell byte.
pub fn byte_to_pos(b: u8) -> (r: (i8, i8))
    requires
        b % 10 >= 1,
        b / 10 >= 1,
    ensures
        r.0 == b % 10 - 1,
        r.1 == b / 10 - 1,
{
    ((b % 10 - 1) as i8, (b / 10 - 1) as i8)
}

/// The device cell byte of a flat cell index (row-major, 9 wide),
/// saturating above the last cell.
pub open spec fn spec_index_byte(index: int) -> int {
    let i = if index > 80 {
        80int
    } else {
        index
    };
    (i / 9 + 1) * 10 + i % 9 + 1
}

/// The device cell byte of a flat cell index, `index = row * 9 + column`.
pub fn index_to_byte(index: u8) -> (r: u8)
    ensures
        r == spec_index_byte(index as int),
{
    let i: u8 = if index > 80 { 80 } else { index };
    let x: u8 = i % 9;
    let y: u8 = i / 9;
    (y + 1) * 10 + (x + 1)
}

/// The flat cell index of a device cell byte.
pub fn byte_to_index(b: u8) -> (r: u8)
    requires
        b % 10 >= 1,
        b / 10 >= 1,
    ensures
        r == (b / 10 - 1) * 9 + b % 10 - 1,
{
    let x: u8 = b % 10 - 1;
    let y: u8 = b / 10 - 1;
    y * 9 + x
}

/// A color channel clamped to the MIDI data range.
pub open spec fn clamp7(v: u8) -> u8 {
    if v > 127 {
        127u8
    } else {
        v
    }
}

/// The five bytes that one cell contributes to the frame, in place.
pub open spec fn cell_bytes_ok(data: Seq<u8>, cells: Seq<Color>, k: int) -> bool {
    &&& data[7 + 5 * k] == 0x03u8
    &&& data[7 + 5 * k + 1] == spec_index_byte(k)
    &&& data[7 + 5 * k + 2] == clamp7(cells[k].0)
    &&& data[7 + 5 * k + 3] == clamp7(cells[k].1)
    &&& data[7 + 5 * k + 4] == clamp7(cells[k].2)
}

/// Encode the full cell state as one system-exclusive frame: a 7-byte
/// header, five bytes per cell (a per-cell RGB opcode, the cell byte and
/// the three clamped channels), and the terminator.
pub fn encode(output: &Output) -> (r: Vec<Vec<u8>>)
    requires
        output.wf(),
    ensures
        r@.len() == 1,
        r@[0]@.len() == 413,
        r@[0]@[0] == 0xF0u8 && r@[0]@[1] == 0x00u8 && r@[0]@[2] == 0x20u8
            && r@[0]@[3] == 0x29u8 && r@[0]@[4] == 0x02u8 && r@[0]@[5] == 0x0Cu8
            && r@[0]@[6] == 0x03u8,
        forall|k: int| 0 <= k < 81 ==> #[trigger] cell_bytes_ok(r@[0]@, output.cells@, k),
        r@[0]@[412] == 0xF7u8,
{
    let mut data: Vec<u8> = Vec::new();
    data.push(0xF0);
    data.push(0x00);
    data.push(0x20);
    data.push(0x29);
    data.push(0x02);
    data.push(0x0C);
    data.push(0x03);
    let mut i: usize = 0;
    while i < 81
        invariant
            i <= 81,
            output.wf(),
            data@.len() == 7 + 5 * i,
            data@[0] == 0xF0u8 && data@[1] == 0x00u8 && data@[2] == 0x20u8
                && data@[3] == 0x29u8 && data@[4] == 0x02u8 && data@[5] == 0x0Cu8
                && data@[6] == 0x03u8,
            forall|k: int| 0 <= k < i ==> #[trigger] cell_bytes_ok(data@, output.cells@, k),
        decreases 81 - i,
    {
        let ghost pre = data@;
        let c = output.cells[i];
        data.push(0x03);
        data.push(index_to_byte(i as u8));
        data.push(if c.0 > 127 { 127 } else { c.0 });
        data.push(if c.1 > 127 { 127 } else { c.1 });
        data.push(if c.2 > 127 { 127 } else { c.2 });
        proof {
            assert forall|k: int| 0 <= k < i + 1 implies #[trigger] cell_bytes_ok(
                data@,
                output.cells@,
                k,
            ) by {
                if k < i {
                    assert(cell_bytes_ok(pre, output.cells@, k));
                    assert(data@[7 + 5 * k] == pre[7 + 5 * k]);
                    assert(data@[7 + 5 * k + 1] == pre[7 + 5 * k + 1]);
                    assert(data@[7 + 5 * k + 2] == pre[7 + 5 * k + 2]);
                    assert(data@[7 + 5 * k + 3] == pre[7 + 5 * k + 3]);
                    assert(data@[7 + 5 * k + 4] == pre[7 + 5 * k + 4]);
                } else {
                    assert(data@[7 + 5 * k] == 0x03u8);
                }
            }
        }
        i += 1;
    }
    let ghost body = data@;
    data.push(0xF7);
    let mut r: Vec<Vec<u8>> = Vec::new();
    r.push(data);
    proof {
        assert forall|k: int| 0 <= k < 81 implies #[trigger] cell_bytes_ok(
            r@[0]@,
            output.cells@,
            k,
        ) by {
            assert(cell_bytes_ok(body, output.cells@, k));
        }
    }
    r
}

/// Operating mode of the pad surface.
#[derive(Clone, Copy, Debug, PartialEq, Eq, Structural)]
pub enum Mode {
    Live,
    Programmer,
}

/// Input velocity curve, or a fixed velocity.
#[derive(Clone, Copy, Debug, PartialEq, Eq, Structural)]
pub enum Velocity {
    Low,
    Medium,
    High,
    Fixed(u8),
}

/// Pressure sensing mode.
#[derive(Clone, Copy, Debug, PartialEq, Eq, Structural)]
pub enum Pressure {
    Polyphonic,
    Channel,
    Off,
}

/// Pressure response curve.
#[derive(Clone, Copy, Debug, PartialEq, Eq, Structural)]
pub enum PressureCurve {
    Low,
    Medium,
    High,
}

/// Wire code of an operating mode.
pub fn mode_code(m: Mode) -> (r: u8)
    ensures
        r == (match m {
            Mode::Live => 0u8,
            Mode::Programmer => 1u8,
        }),
{
    match m {
        Mode::Live => 0,
        Mode::Programmer => 1,
    }
}

/// Wire code of a velocity curve, and the fixed value when one is forced.
pub fn velocity_code(v: Velocity) -> (r: (u8, u8))
    ensures
        r == (match v {
            Velocity::Low => (0u8, 0u8),
            Velocity::Medium => (1u8, 0u8),
            Velocity::High => (2u8, 0u8),
            Velocity::Fixed(f) => (3u8, f),
        }),
{
    match v {
        Velocity::Low => (0, 0),
        Velocity::Medium => (1, 0),
        Velocity::High => (2, 0),
        Velocity::Fixed(f) => (3, f),
    }
}

/// Wire code of a pressure mode.
pub fn pressure_code(p: Pressure) -> (r: u8)
    ensures
        r == (match p {
            Pressure::Polyphonic => 0u8,
            Pressure::Channel => 1u8,
            Pressure::Off => 2u8,
        }),
{
    match p {
        Pressure::Polyphonic => 0,
        Pressure::Channel => 1,
        Pressure::Off => 2,
    }
}

/// Wire code of a pressure curve.
pub fn pressure_curve_code(c: PressureCurve) -> (r: u8)
    ensures
        r == (match c {
            PressureCurve::Low => 0u8,
            PressureCurve::Medium => 1u8,
            PressureCurve::High => 2u8,
        }),
{
    match c {
        PressureCurve::Low => 0,
        PressureCurve::Medium => 1,
        PressureCurve::High => 2,
    }
}

/// The one-time setup handshake: programmer mode, medium velocity curve,
/// polyphonic pressure with a medium curve, and full brightness, in this
/// fixed order. Values are a static configuration, not negotiated.
pub fn setup_frames() -> (r: Vec<Vec<u8>>)
    ensures
        r@.len() == 4,
        r@[0]@ == seq![0xF0u8, 0x00, 0x20, 0x29, 0x02, 0x0C, 0x0E, 0x01, 0xF7],
        r@[1]@ == seq![0xF0u8, 0x00, 0x20, 0x29, 0x02, 0x0C, 0x04, 0x01, 0x00, 0xF7],
        r@[2]@ == seq![0xF0u8, 0x00, 0x20, 0x29, 0x02, 0x0C, 0x0B, 0x00, 0x01, 0xF7],
        r@[3]@ == seq![0xF0u8, 0x00, 0x20, 0x29, 0x02, 0x0C, 0x08, 0x7F, 0xF7],
{
    let mode = mode_code(Mode::Programmer);
    let (curve, fixed) = velocity_code(Velocity::Medium);
    let pressure = pressure_code(Pressure::Polyphonic);
    let pressure_curve = pressure_curve_code(PressureCurve::Medium);
    let brightness: u8 = 0x7F;

    let mut r: Vec<Vec<u8>> = Vec::new();
    let f0: Vec<u8> = vec![0xF0, 0x00, 0x20, 0x29, 0x02, 0x0C, 0x0E, mode, 0xF7];
    let f1: Vec<u8> = vec![0xF0, 0x00, 0x20, 0x29, 0x02, 0x0C, 0x04, curve, fixed, 0xF7];
    let f2: Vec<u8> = vec![
        0xF0, 0x00, 0x20, 0x29, 0x02, 0x0C, 0x0B, pressure, pressure_curve, 0xF7,
    ];
    let f3: Vec<u8> = vec![0xF0, 0x00, 0x20, 0x29, 0x02, 0x0C, 0x08, brightness, 0xF7];
    proof {
        assert(f0@ =~= seq![0xF0u8, 0x00, 0x20, 0x29, 0x02, 0x0C, 0x0E, 0x01, 0xF7]);
        assert(f1@ =~= seq![0xF0u8, 0x00, 0x20, 0x29, 0x02, 0x0C, 0x04, 0x01, 0x00, 0xF7]);
        assert(f2@ =~= seq![0xF0u8, 0x00, 0x20, 0x29, 0x02, 0x0C, 0x0B, 0x00, 0x01, 0xF7]);
        assert(f3@ =~= seq![0xF0u8, 0x00, 0x20, 0x29, 0x02, 0x0C, 0x08, 0x7F, 0xF7]);
    }
    r.push(f0);
    r.push(f1);
    r.push(f2);
    r.push(f3);
    r
}

} // verus!
