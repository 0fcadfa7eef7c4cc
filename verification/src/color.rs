//! Pad colors, as three channels in the MIDI data range `0 ..= 127`.
//!
//! The channel order of the named constructors follows the wire order the
//! pad encoder sends them in; a channel value of 127 is full brightness.

use vstd::prelude::*;

verus! {

/// A three-channel pad color; each channel is a MIDI data byte, `0 ..= 127`.
#[derive(Clone, Copy, Debug, PartialEq, Eq, Structural)]
pub struct Color(pub u8, pub u8, pub u8);

impl Color {
    pub fn off() -> (r: Self)
        ensures
            r == (Color(0, 0, 0)),
    {
        Color(0, 0, 0)
    }

    pub fn red() -> (r: Self)
        ensures
            r == (Color(0, 127, 0)),
    {
        Color(0, 127, 0)
    }

    pub fn green() -> (r: Self)
        ensures
            r == (Color(0, 0, 127)),
    {
        Color(0, 0, 127)
    }

    pub fn blue() -> (r: Self)
        ensures
            r == (Color(127, 0, 0)),
    {
        Color(127, 0, 0)
    }

    pub fn yellow() -> (r: Self)
        ensures
            r == (Color(0, 127, 127)),
    {
        Color(0, 127, 127)
    }

    pub fn cyan() -> (r: Self)
        ensures
            r == (Color(127, 127, 0)),
    {
        Color(127, 127, 0)
    }

    pub fn magenta() -> (r: Self)
        ensures
            r == (Color(127, 0, 127)),
    {
        Color(127, 0, 127)
    }

    pub fn white() -> (r: Self)
        ensures
            r == (Color(127, 127, 127)),
    {
        Color(127, 127, 127)
    }

    /// The three channels as a plain tuple.
    pub fn rgb(&self) -> (r: (u8, u8, u8))
        ensures
            r == (self.0, self.1, self.2),
    {
        (self.0, self.1, self.2)
    }
}

} // verus!
