//! A library for composing music and compiling it into a flat,
//! tick-ordered stream of timed MIDI events.
//!
//! A score is built bottom-up: notes (and chords of notes) are gathered
//! into phrases, phrases are placed into instrument parts at a start
//! beat, and parts are collected into a score.  The timeline compiler
//! walks that tree once and produces, per part, one track: a
//! delta-time-encoded event list ready for serialization as a Standard
//! MIDI File by any SMF writer.
//!
//! All time is measured in microbeats (millionths of a beat), so that
//! the compiler's arithmetic is exact integer arithmetic.

#![allow(unused_imports)]

pub mod chord;
pub mod composition;
pub mod dynamic;
pub mod errors;
pub mod events;
pub mod instrument;
pub mod note;
pub mod part;
pub mod phrase;
pub mod rhythm;
pub mod schedule;
pub mod score;
pub mod ticks;

pub use chord::Chord;
pub use errors::Error;
pub use events::{EventKind, MidiFile, TimedEvent, TrackFormat};
pub use instrument::Instrument;
pub use note::{compute_pitch, pitch_info, Accidental, Note, NoteName};
pub use part::Part;
pub use phrase::{Phrase, PhraseEntry};
pub use score::{Metadata, Mode, Score, Tempo};
