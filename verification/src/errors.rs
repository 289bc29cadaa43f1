//! Typed failures reported at the point of construction or compilation.
//!
//! Every error names one specific, attributable reason; nothing is
//! retried and nothing is silently downgraded.

use vstd::prelude::*;

verus! {

/// A failure while validating a note.
#[derive(Clone, Copy, Debug, PartialEq, Eq, Structural)]
pub enum NoteError {
    /// A computed pitch fell outside `0..=127`.  Carries the computed
    /// value (an underflow below zero carries the wrapped value).
    InvalidPitch(u32),
    /// A rhythm value of zero microbeats.  Carries the rejected value.
    InvalidRhythm(u64),
}

/// A failure while validating a chord.
#[derive(Clone, Copy, Debug, PartialEq, Eq, Structural)]
pub enum ChordError {
    /// The chord holds no note at all.
    EmptyChord,
    /// The chord claims to occupy more time in its phrase than any of
    /// its notes actually sounds; a shorter slot followed by a rest
    /// expresses the same thing unambiguously.
    RhythmTooLong,
}

/// A failure while validating a score.
#[derive(Clone, Copy, Debug, PartialEq, Eq, Structural)]
pub enum ScoreError {
    /// A tempo of zero beats per minute.
    InvalidTempo,
}

/// A failure while compiling a score to MIDI tracks.
#[derive(Clone, Copy, Debug, PartialEq, Eq, Structural)]
pub enum ToMidiConversionError {
    /// More parts than the 16 channels MIDI offers.  Carries the part count.
    TooManyParts(usize),
}

/// Any failure this library reports.
#[derive(Clone, Copy, Debug, PartialEq, Eq, Structural)]
pub enum Error {
    /// An invalid note.
    Note(NoteError),
    /// An invalid chord.
    Chord(ChordError),
    /// An invalid score.
    Score(ScoreError),
    /// A failure while compiling to MIDI tracks.
    ToMidiConversion(ToMidiConversionError),
}

} // verus!
