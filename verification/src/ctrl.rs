//! Wire codec for the knob/slider/button control surface.
//!
//! Decoding turns raw MIDI frames into semantic events carrying raw value
//! bytes; encoding emits one small system-exclusive frame per controllable
//! indicator, always the complete fixed-size set, in a fixed order.

use vstd::prelude::*;

verus! {

/// A decoded control event. Value bytes are raw, `0 ..= 127`: knobs report
/// a diverging position around `0x40`, sliders a plain level.
#[derive(Clone, Copy, Debug, PartialEq, Eq, Structural)]
pub enum Input {
    /// Knob row (0 top, 2 bottom), column, raw value byte.
    Knob(i8, i8, u8),
    /// Slider column, raw value byte.
    Slider(i8, u8),
    /// Button column, row, pressed.
    Button(i8, i8, bool),
    Up(bool),
    Down(bool),
    Left(bool),
    Right(bool),
    /// Side select button, index 0 at the top, pressed.
    Select(i8, bool),
}

/// Indicator colors of the control surface's two-channel LEDs.
#[derive(Clone, Copy, Debug, PartialEq, Eq, Structural)]
pub enum Color {
    Off,
    Red,
    Orange,
    Yellow,
    Green,
}

/// The wire mask of an indicator color: red brightness in bits 0..1,
/// double-buffering flags in bits 2..3, green brightness in bits 4..5.
pub open spec fn spec_mask(c: Color) -> u8 {
    match c {
        Color::Off => 0b001100u8,
        Color::Red => 0b001101u8,
        Color::Orange => 0b111111u8,
        Color::Yellow => 0b111110u8,
        Color::Green => 0b111100u8,
    }
}

impl Color {
    /// The wire mask of this color.
    pub fn mask(self) -> (r: u8)
        ensures
            r == spec_mask(self),
    {
        match self {
            Color::Off => 0b001100,
            Color::Red => 0b001101,
            Color::Orange => 0b111111,
            Color::Yellow => 0b111110,
            Color::Green => 0b111100,
        }
    }
}

/// The desired state of every indicator on the surface.
pub struct Output {
    /// 24 knob LEDs, row-major, three rows of eight, top row first.
    pub knobs: Vec<Color>,
    /// 16 button LEDs, two rows of eight, top row first.
    pub buttons: Vec<Color>,
    pub up: Color,
    pub down: Color,
    pub left: Color,
    pub right: Color,
    /// 4 side select LEDs, on or off.
    pub select: Vec<bool>,
}

impl Output {
    /// An output is complete only with every indicator present.
    pub open spec fn wf(&self) -> bool {
        self.knobs@.len() == 24 && self.buttons@.len() == 16 && self.select@.len() == 4
    }
}

/// A complete output with every indicator dark.
pub fn clear() -> (r: Output)
    ensures
        r.wf(),
        forall|k: int| 0 <= k < 24 ==> r.knobs@[k] == Color::Off,
        forall|k: int| 0 <= k < 16 ==> r.buttons@[k] == Color::Off,
        r.up == Color::Off && r.down == Color::Off && r.left == Color::Off
            && r.right == Color::Off,
        forall|k: int| 0 <= k < 4 ==> r.select@[k] == false,
{
    let mut knobs: Vec<Color> = Vec::new();
    let mut i: usize = 0;
    while i < 24
        invariant
            i <= 24,
            knobs@.len() == i,
            forall|k: int| 0 <= k < i ==> knobs@[k] == Color::Off,
        decreases 24 - i,
    {
        knobs.push(Color::Off);
        i += 1;
    }
    let mut buttons: Vec<Color> = Vec::new();
    let mut j: usize = 0;
    while j < 16
        invariant
            j <= 16,
            buttons@.len() == j,
            forall|k: int| 0 <= k < j ==> buttons@[k] == Color::Off,
        decreases 16 - j,
    {
        buttons.push(Color::Off);
        j += 1;
    }
    let mut select: Vec<bool> = Vec::new();
    let mut s: usize = 0;
    while s < 4
        invariant
            s <= 4,
            select@.len() == s,
            forall|k: int| 0 <= k < s ==> select@[k] == false,
        decreases 4 - s,
    {
        select.push(false);
        s += 1;
    }
    Output {
        knobs,
        buttons,
        up: Color::Off,
        down: Color::Off,
        left: Color::Off,
        right: Color::Off,
        select,
    }
}

/// What decoding yields for a note-on/note-off status: the button and side
/// select ranges; anything else is no event.
pub open spec fn spec_decode_note(key: u8, press: bool) -> Option<Input> {
    if 0x29 <= key <= 0x2c {
        Some(Input::Button((key - 0x29) as i8, 1, press))
    } else if 0x39 <= key <= 0x3c {
        Some(Input::Button((4 + key - 0x39) as i8, 1, press))
    } else if 0x49 <= key <= 0x4c {
        Some(Input::Button((key - 0x49) as i8, 0, press))
    } else if 0x59 <= key <= 0x5c {
        Some(Input::Button((4 + key - 0x59) as i8, 0, press))
    } else if 0x69 <= key <= 0x6c {
        Some(Input::Select((3 - (key - 0x69)) as i8, press))
    } else {
        None
    }
}

/// What decoding yields for a control-change status: the three knob rows,
/// the sliders and the four arrow buttons; anything else is no event.
pub open spec fn spec_decode_cc(key: u8, value: u8) -> Option<Input> {
    if 0x0d <= key <= 0x14 {
        Some(Input::Knob(2, (key - 0x0d) as i8, value))
    } else if 0x1d <= key <= 0x24 {
        Some(Input::Knob(1, (key - 0x1d) as i8, value))
    } else if 0x31 <= key <= 0x38 {
        Some(Input::Knob(0, (key - 0x31) as i8, value))
    } else if 0x4d <= key <= 0x54 {
        Some(Input::Slider((key - 0x4d) as i8, value))
    } else if key == 0x68 {
        Some(Input::Up(value == 0x7f))
    } else if key == 0x69 {
        Some(Input::Down(value == 0x7f))
    } else if key == 0x6a {
        Some(Input::Left(value == 0x7f))
    } else if key == 0x6b {
        Some(Input::Right(value == 0x7f))
    } else {
        None
    }
}

/// What decoding a raw frame yields. Only the upper nibble of the status
/// byte is significant; frames too short for their status yield no event.
pub open spec fn spec_decode(raw: Seq<u8>) -> Option<Input> {
    if raw.len() < 2 {
        None
    } else if raw[0] & 0xf0 == 0x90 {
        spec_decode_note(raw[1], true)
    } else if raw[0] & 0xf0 == 0x80 {
        spec_decode_note(raw[1], false)
    } else if raw[0] & 0xf0 == 0xb0 {
        if raw.len() < 3 {
            None
        } else {
            spec_decode_cc(raw[1], raw[2])
        }
    } else {
        None
    }
}

/// Decode one raw frame. Total: any frame that is too short or whose bytes
/// fall outside the recognized ranges yields `None`.
pub fn decode(raw: &[u8]) -> (r: Option<Input>)
    ensures
        r == spec_decode(raw@),
{
    if raw.len() < 2 {
        return None;
    }
    let status = raw[0] & 0xf0;
    if status == 0x90 || status == 0x80 {
        let press = status == 0x90;
        let key = raw[1];
        if 0x29 <= key && key <= 0x2c {
            Some(Input::Button((key - 0x29) as i8, 1, press))
        } else if 0x39 <= key && key <= 0x3c {
            Some(Input::Button((4 + key - 0x39) as i8, 1, press))
        } else if 0x49 <= key && key <= 0x4c {
            Some(Input::Button((key - 0x49) as i8, 0, press))
        } else if 0x59 <= key && key <= 0x5c {
            Some(Input::Button((4 + key - 0x59) as i8, 0, press))
        } else if 0x69 <= key && key <= 0x6c {
            Some(Input::Select((3 - (key - 0x69)) as i8, press))
        } else {
            None
        }
    } else if status == 0xb0 {
        if raw.len() < 3 {
            return None;
        }
        let key = raw[1];
        let value = raw[2];
        if 0x0d <= key && key <= 0x14 {
            Some(Input::Knob(2, (key - 0x0d) as i8, value))
        } else if 0x1d <= key && key <= 0x24 {
            Some(Input::Knob(1, (key - 0x1d) as i8, value))
        } else if 0x31 <= key && key <= 0x38 {
            Some(Input::Knob(0, (key - 0x31) as i8, value))
        } else if 0x4d <= key && key <= 0x54 {
            Some(Input::Slider((key - 0x4d) as i8, value))
        } else if key == 0x68 {
            Some(Input::Up(value == 0x7f))
        } else if key == 0x69 {
            Some(Input::Down(value == 0x7f))
        } else if key == 0x6a {
            Some(Input::Left(value == 0x7f))
        } else if key == 0x6b {
            Some(Input::Right(value == 0x7f))
        } else {
            None
        }
    } else {
        None
    }
}

/// The single indicator frame for template slot `idx` showing color `c`.
pub open spec fn spec_light(idx: u8, c: Color) -> Seq<u8> {
    seq![0xf0u8, 0x00, 0x20, 0x29, 0x02, 0x11, 0x78, 0x00, idx, spec_mask(c), 0xf7]
}

/// One indicator frame: template header, slot index, color mask, terminator.
fn light_sysex(idx: u8, color: Color) -> (r: Vec<u8>)
    ensures
        r@ == spec_light(idx, color),
{
    let r: Vec<u8> = vec![
        0xf0, 0x00, 0x20, 0x29, 0x02, 0x11, 0x78, 0x00, idx, color.mask(), 0xf7,
    ];
    proof {
        assert(r@ =~= spec_light(idx, color));
    }
    r
}

/// The frame for a select indicator, whose brightness is a plain byte.
pub open spec fn spec_select_light(idx: u8, on: bool) -> Seq<u8> {
    seq![
        0xf0u8, 0x00, 0x20, 0x29, 0x02, 0x11, 0x78, 0x00, idx,
        if on { 63u8 } else { 0u8 }, 0xf7,
    ]
}

/// The slot index a knob LED is sent to: the device's rows run top to
/// bottom, so the three rows of eight are reordered on the wire.
pub open spec fn knob_slot(i: int) -> u8 {
    if i < 8 {
        (i + 16) as u8
    } else if i < 16 {
        i as u8
    } else {
        (i - 16) as u8
    }
}

/// The slot index a button LED is sent to: the two rows of eight swap.
pub open spec fn button_slot(i: int) -> u8 {
    if i < 8 {
        (0x18 + i + 8) as u8
    } else {
        (0x18 + i - 8) as u8
    }
}

/// Encode the complete indicator state: one frame per knob LED, per button
/// LED, per arrow and per select, 48 frames in this fixed order.
pub fn encode(output: &Output) -> (r: Vec<Vec<u8>>)
    requires
        output.wf(),
    ensures
        r@.len() == 48,
        forall|i: int| 0 <= i < 24 ==> r@[i]@ == spec_light(knob_slot(i), #[trigger] output.knobs@[i]),
        forall|i: int| 0 <= i < 16 ==> r@[24 + i]@ == spec_light(
            button_slot(i),
            #[trigger] output.buttons@[i],
        ),
        r@[40]@ == spec_light(0x2c, output.up),
        r@[41]@ == spec_light(0x2d, output.down),
        r@[42]@ == spec_light(0x2e, output.left),
        r@[43]@ == spec_light(0x2f, output.right),
        forall|i: int| 0 <= i < 4 ==> r@[44 + i]@ == spec_select_light(
            (0x28 + i) as u8,
            #[trigger] output.select@[i],
        ),
{
    let mut cmds: Vec<Vec<u8>> = Vec::new();
    let mut i: usize = 0;
    while i < 24
        invariant
            i <= 24,
            output.wf(),
            cmds@.len() == i,
            forall|k: int| 0 <= k < i ==> cmds@[k]@ == spec_light(
                knob_slot(k),
                #[trigger] output.knobs@[k],
            ),
        decreases 24 - i,
    {
        let slot: u8 = if i < 8 {
            (i + 16) as u8
        } else if i < 16 {
            i as u8
        } else {
            (i - 16) as u8
        };
        cmds.push(light_sysex(slot, output.knobs[i]));
        i += 1;
    }
    let mut j: usize = 0;
    while j < 16
        invariant
            j <= 16,
            output.wf(),
            cmds@.len() == 24 + j,
            forall|k: int| 0 <= k < 24 ==> cmds@[k]@ == spec_light(
                knob_slot(k),
                #[trigger] output.knobs@[k],
            ),
            forall|k: int| 0 <= k < j ==> cmds@[24 + k]@ == spec_light(
                button_slot(k),
                #[trigger] output.buttons@[k],
            ),
        decreases 16 - j,
    {
        let slot: u8 = if j < 8 {
            (0x18 + j + 8) as u8
        } else {
            (0x18 + j - 8) as u8
        };
        cmds.push(light_sysex(slot, output.buttons[j]));
        j += 1;
    }
    cmds.push(light_sysex(0x2c, output.up));
    cmds.push(light_sysex(0x2d, output.down));
    cmds.push(light_sysex(0x2e, output.left));
    cmds.push(light_sysex(0x2f, output.right));
    let mut s: usize = 0;
    while s < 4
        invariant
            s <= 4,
            output.wf(),
            cmds@.len() == 44 + s,
            forall|k: int| 0 <= k < 24 ==> cmds@[k]@ == spec_light(
                knob_slot(k),
                #[trigger] output.knobs@[k],
            ),
            forall|k: int| 0 <= k < 16 ==> cmds@[24 + k]@ == spec_light(
                button_slot(k),
                #[trigger] output.buttons@[k],
            ),
            cmds@[40]@ == spec_light(0x2c, output.up),
            cmds@[41]@ == spec_light(0x2d, output.down),
            cmds@[42]@ == spec_light(0x2e, output.left),
            cmds@[43]@ == spec_light(0x2f, output.right),
            forall|k: int| 0 <= k < s ==> cmds@[44 + k]@ == spec_select_light(
                (0x28 + k) as u8,
                #[trigger] output.select@[k],
            ),
        decreases 4 - s,
    {
        let b: u8 = if output.select[s] { 63 } else { 0 };
        let frame: Vec<u8> = vec![
            0xf0, 0x00, 0x20, 0x29, 0x02, 0x11, 0x78, 0x00, (0x28 + s) as u8, b, 0xf7,
        ];
        proof {
            assert(frame@ =~= spec_select_light((0x28 + s) as u8, output.select@[s as int]));
        }
        cmds.push(frame);
        s += 1;
    }
    cmds
}

} // verus!
