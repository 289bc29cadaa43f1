//! The compiled output: timed MIDI events, grouped into tracks.
//!
//! This is the input contract of any SMF writer: per track, an ordered
//! sequence of events, each tagged with the number of ticks since the
//! previous event of the same track.

use vstd::prelude::*;

verus! {

/// Kinds of events a compiled track can carry.
#[derive(Debug, Clone, PartialEq, Eq)]
pub enum EventKind {
    /// The track's name.
    TrackName(String),
    /// Tempo, as (24-bit) microseconds per quarter note.
    Tempo(u32),
    /// Time signature: numerator, denominator as a power of two, MIDI
    /// clocks per metronome click, and 32nd notes per quarter note.
    TimeSignature(u8, u8, u8, u8),
    /// Key signature: signed accidental count (negative for flats,
    /// positive for sharps), and whether the key is minor.
    KeySignature(i8, bool),
    /// Selects the instrument voice `program` for `channel`.
    ProgramChange { channel: u8, program: u8 },
    /// Starts sounding pitch `key` on `channel` at velocity `vel`.
    NoteOn { channel: u8, key: u8, vel: u8 },
    /// Stops sounding pitch `key` on `channel` (`vel` conventionally 0).
    NoteOff { channel: u8, key: u8, vel: u8 },
    /// Terminates the track.
    EndOfTrack,
}

/// One event of a track, tagged with its delta-time: the number of
/// ticks since the previous event of the same track (ticks from the
/// track's start for the first event).
#[derive(Debug, Clone, PartialEq, Eq)]
pub struct TimedEvent {
    /// Ticks since the previous event in the same track.
    pub delta: u64,
    /// What happens once `delta` ticks have elapsed.
    pub kind: EventKind,
}

/// The header-level format of the compiled file.
#[derive(Debug, Clone, Copy, PartialEq, Eq, Structural)]
pub enum TrackFormat {
    /// Exactly one track resulted: a single-track file.
    SingleTrack,
    /// Zero or several tracks resulted: simultaneous parallel tracks.
    Parallel,
}

/// A compiled score, ready for serialization by an SMF writer.
#[derive(Debug, Clone, PartialEq, Eq)]
pub struct MidiFile {
    /// Single-track when exactly one track resulted, parallel
    /// otherwise.
    pub format: TrackFormat,
    /// Ticks per quarter note (always 480).
    pub division: u16,
    /// One track per part that produced at least one note event, in
    /// part order.
    pub tracks: Vec<Vec<TimedEvent>>,
}

} // verus!
