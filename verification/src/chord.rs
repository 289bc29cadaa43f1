//! Chords: notes played simultaneously.

use vstd::prelude::*;

use crate::errors::{ChordError, Error};
use crate::note::Note;
use crate::ticks::MAX_TIMELINE_MICROBEATS;

verus! {

/// The longest rhythm value among `notes`, in microbeats (0 when
/// `notes` is empty).
pub open spec fn max_note_rhythm(notes: Seq<Note>) -> int
    decreases notes.len(),
{
    if notes.len() == 0 {
        0
    } else {
        let rest = max_note_rhythm(notes.drop_last());
        let last = notes.last().rhythm_spec() as int;
        if last >= rest {
            last
        } else {
            rest
        }
    }
}

/// When every note has the same rhythm `r`, the longest rhythm is `r`.
pub proof fn lemma_max_note_rhythm_uniform(notes: Seq<Note>, r: u64)
    requires
        notes.len() > 0,
        forall|i: int| 0 <= i < notes.len() ==> (#[trigger] notes[i]).rhythm_spec() == r,
    ensures
        max_note_rhythm(notes) == r,
    decreases notes.len(),
{
    assert(notes.last().rhythm_spec() == r);
    if notes.len() == 1 {
        assert(notes.drop_last().len() == 0);
        assert(max_note_rhythm(notes.drop_last()) == 0);
    }
    if notes.len() > 1 {
        assert forall|i: int| 0 <= i < notes.drop_last().len() implies (#[trigger] notes.drop_last()[
            i
        ]).rhythm_spec() == r by {
            assert(notes.drop_last()[i] == notes[i]);
        }
        lemma_max_note_rhythm_uniform(notes.drop_last(), r);
    }
}

/// A set of notes played simultaneously.
#[derive(Debug, Clone, PartialEq)]
pub struct Chord {
    /// `rhythm` is the length in microbeats that the `Chord` takes in a
    /// `Phrase`.
    ///
    /// It cannot be longer than the longest `Note` of the `Chord`, but
    /// it can be longer than some of the notes.
    ///
    /// It can be shorter than some (or all) of the notes.  This allows
    /// notes in the `Phrase` to start while the previous `Chord` is
    /// still playing.  This also works with a `Chord` of one `Note`, to
    /// let a single note trail into the entries that follow it.
    rhythm: u64,
    /// The notes of the `Chord`.  They can have different rhythm
    /// values, so some notes of the chord may stop before the others.
    notes: Vec<Note>,
}

impl Chord {
    /// The span the chord occupies in its phrase, in microbeats.
    pub closed spec fn rhythm_spec(&self) -> u64 {
        self.rhythm
    }

    /// The notes of the chord.
    pub closed spec fn notes_spec(&self) -> Seq<Note> {
        self.notes@
    }

    /// Validity of a constructed chord: at least one note, every note
    /// well formed, and the chord's own span no longer than its longest
    /// note.
    pub open spec fn wf(&self) -> bool {
        &&& self.notes_spec().len() >= 1
        &&& forall|i: int| 0 <= i < self.notes_spec().len() ==> (#[trigger] self.notes_spec()[i]).wf()
        &&& self.rhythm_spec() <= max_note_rhythm(self.notes_spec())
    }

    /// Returns a new `Chord` with the given rhythm value and notes.
    ///
    /// # Arguments
    ///
    /// * `rhythm`: span in microbeats that the `Chord` takes in a
    ///   phrase.  Some notes of the chord can last longer, but the next
    ///   entry added to the phrase starts after the end of this span.
    /// * `notes`: list of notes in the `Chord` (must hold 1 or more)
    ///
    /// # Errors
    ///
    /// * `Error::Chord(ChordError::EmptyChord)` if `notes` is empty
    /// * `Error::Chord(ChordError::RhythmTooLong)` if `rhythm` is longer
    ///   than the longest note
    pub fn new(rhythm: u64, notes: Vec<Note>) -> (r: Result<Chord, Error>)
        requires
            forall|i: int| 0 <= i < notes@.len() ==> (#[trigger] notes@[i]).wf(),
        ensures
            notes@.len() == 0 ==> r == Err::<Chord, Error>(Error::Chord(ChordError::EmptyChord)),
            notes@.len() > 0 && rhythm > max_note_rhythm(notes@) ==> r == Err::<Chord, Error>(
                Error::Chord(ChordError::RhythmTooLong),
            ),
            notes@.len() > 0 && rhythm <= max_note_rhythm(notes@) ==> (r matches Ok(c)
                && c.rhythm_spec() == rhythm && c.notes_spec() == notes@ && c.wf()),
    {
        if notes.is_empty() {
            return Err(Error::Chord(ChordError::EmptyChord));
        }
        let mut maxr: u64 = 0;
        let mut i: usize = 0;
        while i < notes.len()
            invariant
                0 <= i <= notes@.len(),
                maxr == max_note_rhythm(notes@.take(i as int)),
            decreases notes@.len() - i,
        {
            proof {
                assert(notes@.take(i + 1).drop_last() =~= notes@.take(i as int));
                assert(notes@.take(i + 1).last() == notes@[i as int]);
            }
            if notes[i].rhythm() > maxr {
                maxr = notes[i].rhythm();
            }
            i = i + 1;
        }
        proof {
            assert(notes@.take(notes@.len() as int) =~= notes@);
        }
        if maxr < rhythm {
            return Err(Error::Chord(ChordError::RhythmTooLong));
        }
        Ok(Chord { rhythm, notes })
    }

    /// Returns a new `Chord` with the given rhythm value, note pitches,
    /// and dynamic.  Every note takes the chord's own rhythm, so none of
    /// them trails.
    ///
    /// # Arguments
    ///
    /// * `rhythm`: span in microbeats of the `Chord` and of every note
    ///   it contains
    /// * `dynamic`: dynamic that each note in the `Chord` takes
    /// * `pitches`: list of the pitches of the notes of the `Chord`
    ///
    /// # Errors
    ///
    /// * `Error::Note(NoteError::InvalidRhythm)` if `rhythm` is zero
    ///   microbeats and `pitches` is non-empty
    /// * `Error::Chord(ChordError::EmptyChord)` if `pitches` is empty
    pub fn from_pitches(rhythm: u64, dynamic: u8, pitches: &[u8]) -> (r: Result<Chord, Error>)
        requires
            forall|i: int| 0 <= i < pitches@.len() ==> pitches@[i] <= 127,
            dynamic <= 127,
            rhythm <= MAX_TIMELINE_MICROBEATS,
        ensures
            pitches@.len() > 0 && rhythm == 0 ==> r == Err::<Chord, Error>(
                Error::Note(crate::errors::NoteError::InvalidRhythm(rhythm)),
            ),
            pitches@.len() == 0 ==> r == Err::<Chord, Error>(Error::Chord(ChordError::EmptyChord)),
            pitches@.len() > 0 && rhythm >= 1 ==> (r matches Ok(c) && c.rhythm_spec() == rhythm
                && c.notes_spec().len() == pitches@.len() && (forall|i: int|
                0 <= i < pitches@.len() ==> ((#[trigger] c.notes_spec()[i]).pitch_spec()
                    == pitches@[i] && c.notes_spec()[i].rhythm_spec() == rhythm
                    && c.notes_spec()[i].dynamic_spec() == dynamic)) && c.wf()),
    {
        let notes = match Note::new_sequence(rhythm, dynamic, pitches) {
            Ok(notes) => notes,
            Err(e) => {
                return Err(e);
            },
        };
        proof {
            if notes@.len() > 0 {
                lemma_max_note_rhythm_uniform(notes@, rhythm);
            }
        }
        Self::new(rhythm, notes)
    }

    /// Returns the rhythm value of the `Chord`, in microbeats.
    pub fn rhythm(&self) -> (r: u64)
        ensures
            r == self.rhythm_spec(),
    {
        self.rhythm
    }

    /// Returns the notes of the `Chord`.
    pub fn notes(&self) -> (r: &Vec<Note>)
        ensures
            r@ == self.notes_spec(),
    {
        &self.notes
    }
}

} // verus!
