//! Notes and pitch-name arithmetic.

use vstd::prelude::*;

use crate::errors::{Error, NoteError};
use crate::ticks::MAX_TIMELINE_MICROBEATS;

verus! {

/// A music note, with a pitch, a rhythm, and a dynamic (volume).
#[derive(Debug, Clone, Copy, PartialEq, Eq, Structural)]
pub struct Note {
    /// Length of the note in microbeats (see `ticks::MICROBEATS_PER_BEAT`).
    /// Some defaults are available in the `rhythm` module.
    rhythm: u64,
    /// The pitch, between 0 and 127 (included).
    pitch: u8,
    /// The volume of the note, between 0 and 127 (included).  Some
    /// defaults are available in the `dynamic` module.
    dynamic: u8,
}

/// A note name without a specific octave or accidental.
/// Offers both traditional Do Re Mi names and letters from A to G.
#[derive(Debug, Copy, Clone, PartialEq, Eq, Hash, Structural)]
pub enum NoteName {
    Do,
    Re,
    Mi,
    Fa,
    Sol,
    La,
    Si,
}

impl NoteName {
    pub const C: NoteName = NoteName::Do;

    pub const D: NoteName = NoteName::Re;

    pub const E: NoteName = NoteName::Mi;

    pub const F: NoteName = NoteName::Fa;

    pub const G: NoteName = NoteName::Sol;

    pub const A: NoteName = NoteName::La;

    pub const B: NoteName = NoteName::Si;
}

/// A note accidental.
#[derive(Debug, Copy, Clone, PartialEq, Eq, Hash, Structural)]
pub enum Accidental {
    Flat,
    Natural,
    Sharp,
}

/// Semitones between a natural note name and the C below or at it.
pub open spec fn semitone(name: NoteName) -> int {
    match name {
        NoteName::Do => 0,
        NoteName::Re => 2,
        NoteName::Mi => 4,
        NoteName::Fa => 5,
        NoteName::Sol => 7,
        NoteName::La => 9,
        NoteName::Si => 11,
    }
}

/// Semitones an accidental adds to a natural pitch.
pub open spec fn accidental_offset(accidental: Accidental) -> int {
    match accidental {
        Accidental::Flat => -1,
        Accidental::Natural => 0,
        Accidental::Sharp => 1,
    }
}

/// The pitch named by a note name, accidental and octave, counted in
/// semitones from C0 (12 pitches per octave, pitch 0 is a C).
pub open spec fn pitch_value(name: NoteName, accidental: Accidental, octave: u8) -> int {
    12 * octave + semitone(name) + accidental_offset(accidental)
}

/// Whether a pitch class (a pitch modulo 12) has no natural name: it is
/// named as a sharp or a flat of a neighbouring natural pitch.
pub open spec fn altered_pitch_class(pitch_class: int) -> bool {
    pitch_class == 1 || pitch_class == 3 || pitch_class == 6 || pitch_class == 8
        || pitch_class == 10
}

impl Note {
    /// The length of the note in microbeats.
    pub closed spec fn rhythm_spec(&self) -> u64 {
        self.rhythm
    }

    /// The pitch of the note.
    pub closed spec fn pitch_spec(&self) -> u8 {
        self.pitch
    }

    /// The volume of the note.
    pub closed spec fn dynamic_spec(&self) -> u8 {
        self.dynamic
    }

    /// Validity of a constructed note: pitch and dynamic are 7-bit
    /// values and the rhythm is at least one microbeat and at most the
    /// timeline bound.
    pub open spec fn wf(&self) -> bool {
        &&& self.pitch_spec() <= 127
        &&& self.dynamic_spec() <= 127
        &&& 1 <= self.rhythm_spec() <= MAX_TIMELINE_MICROBEATS
    }

    /// Returns a `Note` with the given pitch, rhythm, and dynamic.
    ///
    /// Pitch and dynamic range validity is the caller's responsibility
    /// at the point those values are computed (see `compute_pitch`); it
    /// is not re-checked here.
    ///
    /// # Errors
    ///
    /// * `Error::Note(NoteError::InvalidRhythm)` if `rhythm` is zero
    ///   microbeats.
    pub fn new(pitch: u8, rhythm: u64, dynamic: u8) -> (r: Result<Note, Error>)
        requires
            pitch <= 127,
            dynamic <= 127,
            rhythm <= MAX_TIMELINE_MICROBEATS,
        ensures
            rhythm == 0 ==> r == Err::<Note, Error>(Error::Note(NoteError::InvalidRhythm(rhythm))),
            rhythm >= 1 ==> (r matches Ok(n) && n.pitch_spec() == pitch && n.rhythm_spec() == rhythm
                && n.dynamic_spec() == dynamic && n.wf()),
    {
        if rhythm == 0 {
            return Err(Error::Note(NoteError::InvalidRhythm(rhythm)));
        }
        Ok(Note { rhythm, pitch, dynamic })
    }

    /// Returns notes with identical rhythm and dynamic, one per pitch in
    /// `pitches`, in order.  The result can be added to a phrase with
    /// `Phrase::add_sequential_notes` to be played sequentially, or used
    /// in a `Chord`.
    ///
    /// # Errors
    ///
    /// * `Error::Note(NoteError::InvalidRhythm)` if `rhythm` is zero
    ///   microbeats and `pitches` is non-empty.
    pub fn new_sequence(rhythm: u64, dynamic: u8, pitches: &[u8]) -> (r: Result<Vec<Note>, Error>)
        requires
            forall|i: int| 0 <= i < pitches@.len() ==> pitches@[i] <= 127,
            dynamic <= 127,
            rhythm <= MAX_TIMELINE_MICROBEATS,
        ensures
            pitches@.len() > 0 && rhythm == 0 ==> r == Err::<Vec<Note>, Error>(
                Error::Note(NoteError::InvalidRhythm(rhythm)),
            ),
            pitches@.len() == 0 || rhythm >= 1 ==> (r matches Ok(v) && v@.len() == pitches@.len()
                && (forall|i: int|
                0 <= i < pitches@.len() ==> ((#[trigger] v@[i]).pitch_spec() == pitches@[i]
                    && v@[i].rhythm_spec() == rhythm && v@[i].dynamic_spec() == dynamic
                    && v@[i].wf()))),
    {
        let mut notes: Vec<Note> = Vec::new();
        let mut i: usize = 0;
        while i < pitches.len()
            invariant
                0 <= i <= pitches@.len(),
                forall|k: int| 0 <= k < pitches@.len() ==> pitches@[k] <= 127,
                dynamic <= 127,
                rhythm <= MAX_TIMELINE_MICROBEATS,
                i > 0 ==> rhythm >= 1,
                notes@.len() == i,
                forall|k: int|
                    0 <= k < i ==> ((#[trigger] notes@[k]).pitch_spec() == pitches@[k]
                        && notes@[k].rhythm_spec() == rhythm && notes@[k].dynamic_spec() == dynamic
                        && notes@[k].wf()),
            decreases pitches@.len() - i,
        {
            match Note::new(pitches[i], rhythm, dynamic) {
                Ok(n) => notes.push(n),
                Err(e) => {
                    return Err(e);
                },
            }
            i = i + 1;
        }
        Ok(notes)
    }

    /// Returns the pitch of the note.
    pub fn pitch(&self) -> (r: u8)
        ensures
            r == self.pitch_spec(),
    {
        self.pitch
    }

    /// Returns the rhythm value of the note, in microbeats.
    pub fn rhythm(&self) -> (r: u64)
        ensures
            r == self.rhythm_spec(),
    {
        self.rhythm
    }

    /// Returns the dynamic value of the note.
    pub fn dynamic(&self) -> (r: u8)
        ensures
            r == self.dynamic_spec(),
    {
        self.dynamic
    }

    /// Returns the note name, accidental, and octave of the `Note`'s
    /// pitch.  See the free function `pitch_info`.
    pub fn pitch_info(&self, sharps: bool) -> (r: (NoteName, Accidental, u8))
        ensures
            12 * r.2 + semitone(r.0) + accidental_offset(r.1) == self.pitch_spec(),
            r.2 == self.pitch_spec() / 12,
            (r.1 is Natural) <==> !altered_pitch_class(self.pitch_spec() as int % 12),
            altered_pitch_class(self.pitch_spec() as int % 12) ==> r.1 == (if sharps {
                Accidental::Sharp
            } else {
                Accidental::Flat
            }),
    {
        pitch_info(self.pitch, sharps)
    }
}

/// Returns a pitch value based on the given note name, octave, and
/// accidental.
///
/// # Arguments
///
/// * `note` - The note name (between `A` and `G`)
/// * `accidental` - The accidental of the note
/// * `octave` - Which octave the note is in (12 pitches per octave,
///   pitch 0 is a C, final pitch must be 127 max)
///
/// # Errors
///
/// Returns `Error::Note(NoteError::InvalidPitch)` if the named pitch is
/// above 127 or underflowed below 0.
pub fn compute_pitch(note: NoteName, accidental: Accidental, octave: u8) -> (r: Result<u8, Error>)
    ensures
        0 <= pitch_value(note, accidental, octave) <= 127 ==> r == Ok::<u8, Error>(
            pitch_value(note, accidental, octave) as u8,
        ),
        pitch_value(note, accidental, octave) > 127 ==> r == Err::<u8, Error>(
            Error::Note(NoteError::InvalidPitch(pitch_value(note, accidental, octave) as u32)),
        ),
        pitch_value(note, accidental, octave) < 0 ==> r == Err::<u8, Error>(
            Error::Note(NoteError::InvalidPitch(u32::MAX)),
        ),
{
    // u32 arithmetic leaves room for the range check after the sum
    let base_pitch: u32 = match note {
        NoteName::Do => 0,
        NoteName::Re => 2,
        NoteName::Mi => 4,
        NoteName::Fa => 5,
        NoteName::Sol => 7,
        NoteName::La => 9,
        NoteName::Si => 11,
    };
    let nat_pitch: u32 = 12 * (octave as u32) + base_pitch;
    let pitch: u32 = match accidental {
        Accidental::Natural => nat_pitch,
        Accidental::Sharp => nat_pitch + 1,
        Accidental::Flat => {
            if nat_pitch == 0 {
                return Err(Error::Note(NoteError::InvalidPitch(u32::MAX)));
            }
            nat_pitch - 1
        },
    };
    if pitch > 127 {
        return Err(Error::Note(NoteError::InvalidPitch(pitch)));
    }
    Ok(pitch as u8)
}

/// Returns the note name, accidental, and octave of the given pitch.
///
/// # Arguments
///
/// * `pitch`: pitch to analyse
/// * `sharps`: specifies if an altered pitch should be named as a sharp
///   (if false, an altered pitch is named as a flat).  This does not
///   affect naturals.
pub fn pitch_info(pitch: u8, sharps: bool) -> (r: (NoteName, Accidental, u8))
    ensures
        12 * r.2 + semitone(r.0) + accidental_offset(r.1) == pitch,
        r.2 == pitch / 12,
        (r.1 is Natural) <==> !altered_pitch_class(pitch as int % 12),
        altered_pitch_class(pitch as int % 12) ==> r.1 == (if sharps {
            Accidental::Sharp
        } else {
            Accidental::Flat
        }),
{
    let octave: u8 = pitch / 12;
    let mut remainder_pitch: u8 = pitch % 12;
    let mut acc = Accidental::Natural;
    if remainder_pitch == 1 || remainder_pitch == 3 || remainder_pitch == 6 || remainder_pitch == 8
        || remainder_pitch == 10 {
        if sharps {
            acc = Accidental::Sharp;
            remainder_pitch = remainder_pitch - 1;
        } else {
            acc = Accidental::Flat;
            remainder_pitch = remainder_pitch + 1;
        }
    }
    let name = if remainder_pitch == 0 {
        NoteName::Do
    } else if remainder_pitch == 2 {
        NoteName::Re
    } else if remainder_pitch == 4 {
        NoteName::Mi
    } else if remainder_pitch == 5 {
        NoteName::Fa
    } else if remainder_pitch == 7 {
        NoteName::Sol
    } else if remainder_pitch == 9 {
        NoteName::La
    } else {
        NoteName::Si
    };
    (name, acc, octave)
}

} // verus!
