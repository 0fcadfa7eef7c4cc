//! Core of a hot-reloadable synthesizer: musical pitch arithmetic, wavetable
//! oscillators in fixed point, the two controller wire codecs, the program
//! instance state, its self-describing byte serialization, and the reload
//! (state migration) protocol. Audio, MIDI and filesystem plumbing live
//! outside this library and only hand plain values in and out.

pub mod color;
pub mod codec;
pub mod ctrl;
pub mod host;
pub mod osc;
pub mod pad;
pub mod piano;
pub mod program;
pub mod pitch;
pub mod wavetable;
