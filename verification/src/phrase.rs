//! Phrases: sequences of notes, chords and rests.

use vstd::prelude::*;

use crate::chord::Chord;
use crate::errors::Error;
use crate::note::Note;
use crate::ticks::MAX_TIMELINE_MICROBEATS;

verus! {

/// One entry of a `Phrase`.
#[derive(Debug, Clone, PartialEq)]
pub enum PhraseEntry {
    /// Silent rest with a rhythm value in microbeats (see the `rhythm`
    /// module for common values).
    Rest(u64),
    /// A regular single `Note`.
    Note(Note),
    /// A list of notes played simultaneously.
    Chord(Chord),
}

impl PhraseEntry {
    /// The rhythm value of the entry, in microbeats: how far the entry
    /// advances the phrase cursor.  For a `Chord`, this is the rhythm
    /// value given to `Chord::new`, not the rhythm of the notes of the
    /// chord.
    pub open spec fn rhythm_spec(&self) -> u64 {
        match self {
            PhraseEntry::Rest(r) => *r,
            PhraseEntry::Note(n) => n.rhythm_spec(),
            PhraseEntry::Chord(c) => c.rhythm_spec(),
        }
    }

    /// Validity of the entry: its note or chord is well formed.
    pub open spec fn wf(&self) -> bool {
        match self {
            PhraseEntry::Rest(_) => true,
            PhraseEntry::Note(n) => n.wf(),
            PhraseEntry::Chord(c) => c.wf(),
        }
    }

    /// Returns the rhythm value of the entry, in microbeats.
    /// In case of a `Chord`, this is the rhythm value specified in
    /// `Chord::new`, not the value of the notes of the `Chord`.
    pub fn rhythm(&self) -> (r: u64)
        ensures
            r == self.rhythm_spec(),
    {
        match self {
            PhraseEntry::Chord(c) => c.rhythm(),
            PhraseEntry::Note(n) => n.rhythm(),
            PhraseEntry::Rest(r) => *r,
        }
    }
}

/// Sum of the rhythm values of `entries`, in microbeats: the span the
/// entries occupy in their phrase.
pub open spec fn sum_rhythms(entries: Seq<PhraseEntry>) -> int
    decreases entries.len(),
{
    if entries.len() == 0 {
        0
    } else {
        sum_rhythms(entries.drop_last()) + entries.last().rhythm_spec()
    }
}

/// Sum of the rhythm values of `notes`, in microbeats.
pub open spec fn sum_note_rhythms(notes: Seq<Note>) -> int
    decreases notes.len(),
{
    if notes.len() == 0 {
        0
    } else {
        sum_note_rhythms(notes.drop_last()) + notes.last().rhythm_spec()
    }
}

/// A prefix of entries occupies no more than the whole: the span of the
/// first `j` entries is bounded by the span of them all.
pub proof fn lemma_sum_rhythms_prefix(entries: Seq<PhraseEntry>, j: int)
    requires
        0 <= j <= entries.len(),
    ensures
        sum_rhythms(entries.take(j)) <= sum_rhythms(entries),
    decreases entries.len(),
{
    if j == entries.len() {
        assert(entries.take(j) =~= entries);
    } else {
        lemma_sum_rhythms_prefix(entries.drop_last(), j);
        assert(entries.drop_last().take(j) =~= entries.take(j));
    }
}

/// The sum of note rhythms is non-negative.
pub proof fn lemma_sum_note_rhythms_nonneg(notes: Seq<Note>)
    ensures
        sum_note_rhythms(notes) >= 0,
    decreases notes.len(),
{
    if notes.len() > 0 {
        lemma_sum_note_rhythms_nonneg(notes.drop_last());
    }
}

/// A prefix of notes takes no more time than all of them.
pub proof fn lemma_sum_note_rhythms_prefix(notes: Seq<Note>, j: int)
    requires
        0 <= j <= notes.len(),
    ensures
        sum_note_rhythms(notes.take(j)) <= sum_note_rhythms(notes),
    decreases notes.len(),
{
    if j == notes.len() {
        assert(notes.take(j) =~= notes);
    } else {
        lemma_sum_note_rhythms_prefix(notes.drop_last(), j);
        assert(notes.drop_last().take(j) =~= notes.take(j));
    }
}

/// The phrase entries that play `notes` one after the other.
pub open spec fn note_entries(notes: Seq<Note>) -> Seq<PhraseEntry> {
    notes.map_values(|n: Note| PhraseEntry::Note(n))
}

/// A single musical phrase: entries played strictly sequentially, each
/// starting exactly where the previous entry's rhythm value ends (not
/// where its sound ends — a chord's notes may outlast the chord's own
/// span).  Multiple phrases can be stored in a `Part` and played in
/// parallel.
#[derive(Debug, Clone, PartialEq)]
pub struct Phrase {
    /// List of entries in the phrase.
    entries: Vec<PhraseEntry>,
    /// Span of the phrase in microbeats: the sum of its entries' rhythm
    /// values.
    duration: u64,
    /// Title of the phrase.
    name: String,
}

impl Phrase {
    /// The entries of the phrase, in playing order.
    pub closed spec fn entries_spec(&self) -> Seq<PhraseEntry> {
        self.entries@
    }

    /// The span of the phrase in microbeats.
    pub closed spec fn duration_spec(&self) -> u64 {
        self.duration
    }

    /// The title of the phrase.
    pub closed spec fn name_spec(&self) -> Seq<char> {
        self.name@
    }

    /// Validity of a constructed phrase: the stored duration is the sum
    /// of the entries' rhythm values, stays within the timeline bound,
    /// and every entry is well formed.
    pub open spec fn wf(&self) -> bool {
        &&& self.duration_spec() == sum_rhythms(self.entries_spec())
        &&& self.duration_spec() <= MAX_TIMELINE_MICROBEATS
        &&& forall|i: int| 0 <= i < self.entries_spec().len() ==> (#[trigger] self.entries_spec()[i]).wf()
    }

    /// Returns a new, empty `Phrase`.
    /// A `Phrase` contains entries that can be either a single `Note`,
    /// a `Chord` or a `Rest`.  Entries in a phrase are played
    /// sequentially.
    pub fn new() -> (p: Phrase)
        ensures
            p.entries_spec() == Seq::<PhraseEntry>::empty(),
            p.duration_spec() == 0,
            p.name_spec() == Seq::<char>::empty(),
            p.wf(),
    {
        let p = Phrase { entries: Vec::new(), duration: 0, name: String::new() };
        proof {
            assert(sum_rhythms(p.entries_spec()) == 0);
        }
        p
    }

    /// Returns a new `Phrase` made of the given notes, played one after
    /// the other.
    ///
    /// # Arguments
    ///
    /// * `notes`: the sequence of notes.  Can be produced with
    ///   `Note::new_sequence`, for example.
    pub fn from_notes_sequence(notes: Vec<Note>) -> (r: Result<Phrase, Error>)
        requires
            forall|i: int| 0 <= i < notes@.len() ==> (#[trigger] notes@[i]).wf(),
            sum_note_rhythms(notes@) <= MAX_TIMELINE_MICROBEATS,
        ensures
            r matches Ok(p) && p.entries_spec() == note_entries(notes@) && p.duration_spec()
                == sum_note_rhythms(notes@) && p.name_spec() == Seq::<char>::empty() && p.wf(),
    {
        let mut p = Phrase::new();
        match p.add_sequential_notes(notes) {
            Ok(()) => Ok(p),
            Err(e) => Err(e),
        }
    }

    /// Sets a name for the `Phrase`.  The name does not have to be
    /// unique.
    pub fn set_name(&mut self, name: String)
        ensures
            final (self).entries_spec() == old(self).entries_spec(),
            final (self).duration_spec() == old(self).duration_spec(),
            final (self).name_spec() == name@,
    {
        self.name = name;
    }

    /// Adds a note to the phrase.  It starts after the previous entry.
    pub fn add_note(&mut self, note: Note)
        requires
            old(self).wf(),
            note.wf(),
            old(self).duration_spec() + note.rhythm_spec() <= MAX_TIMELINE_MICROBEATS,
        ensures
            final (self).wf(),
            final (self).entries_spec() == old(self).entries_spec().push(PhraseEntry::Note(note)),
            final (self).duration_spec() == old(self).duration_spec() + note.rhythm_spec(),
            final (self).name_spec() == old(self).name_spec(),
    {
        self.duration = self.duration + note.rhythm();
        self.entries.push(PhraseEntry::Note(note));
        proof {
            assert(self.entries_spec().drop_last() =~= old(self).entries_spec());
        }
    }

    /// Adds multiple sequential notes to the phrase.
    /// Each note will be played after the previous one.
    pub fn add_sequential_notes(&mut self, notes: Vec<Note>) -> (r: Result<(), Error>)
        requires
            old(self).wf(),
            forall|i: int| 0 <= i < notes@.len() ==> (#[trigger] notes@[i]).wf(),
            old(self).duration_spec() + sum_note_rhythms(notes@) <= MAX_TIMELINE_MICROBEATS,
        ensures
            r == Ok::<(), Error>(()),
            final (self).wf(),
            final (self).entries_spec() == old(self).entries_spec() + note_entries(notes@),
            final (self).duration_spec() == old(self).duration_spec() + sum_note_rhythms(notes@),
            final (self).name_spec() == old(self).name_spec(),
    {
        proof {
            lemma_sum_note_rhythms_nonneg(notes@);
        }
        let mut i: usize = 0;
        while i < notes.len()
            invariant
                0 <= i <= notes@.len(),
                forall|k: int| 0 <= k < notes@.len() ==> (#[trigger] notes@[k]).wf(),
                old(self).duration_spec() + sum_note_rhythms(notes@) <= MAX_TIMELINE_MICROBEATS,
                self.wf(),
                self.entries_spec() == old(self).entries_spec() + note_entries(
                    notes@.take(i as int),
                ),
                self.duration_spec() == old(self).duration_spec() + sum_note_rhythms(
                    notes@.take(i as int),
                ),
                self.name_spec() == old(self).name_spec(),
            decreases notes@.len() - i,
        {
            proof {
                assert(notes@.take(i + 1).drop_last() =~= notes@.take(i as int));
                assert(notes@.take(i + 1).last() == notes@[i as int]);
                lemma_sum_note_rhythms_prefix(notes@, i + 1);
                lemma_sum_note_rhythms_nonneg(notes@.take(i as int));
            }
            let note = notes[i].clone();
            proof {
                // a clone of a note is field-for-field the note itself
                assert(note == notes@[i as int]);
            }
            self.add_note(note);
            proof {
                assert(self.entries_spec() =~= old(self).entries_spec() + note_entries(
                    notes@.take(i + 1),
                ));
            }
            i = i + 1;
        }
        proof {
            assert(notes@.take(notes@.len() as int) =~= notes@);
        }
        Ok(())
    }

    /// Adds a chord to the phrase.
    /// All notes of the `Chord` start simultaneously but can end at
    /// different times depending on their respective rhythm values.
    /// The following entry of the `Phrase` starts at the end of this
    /// `Chord`'s own rhythm value, regardless of its inner notes'
    /// duration.  Therefore a `Chord` with a single `Note` (or several)
    /// allows the next notes or chords to play while the current one is
    /// still sounding, by setting a rhythm shorter than the notes it
    /// contains.
    pub fn add_chord(&mut self, c: Chord)
        requires
            old(self).wf(),
            c.wf(),
            old(self).duration_spec() + c.rhythm_spec() <= MAX_TIMELINE_MICROBEATS,
        ensures
            final (self).wf(),
            final (self).entries_spec() == old(self).entries_spec().push(PhraseEntry::Chord(c)),
            final (self).duration_spec() == old(self).duration_spec() + c.rhythm_spec(),
            final (self).name_spec() == old(self).name_spec(),
    {
        self.duration = self.duration + c.rhythm();
        self.entries.push(PhraseEntry::Chord(c));
        proof {
            assert(self.entries_spec().drop_last() =~= old(self).entries_spec());
        }
    }

    /// Adds a rest to the phrase.  It starts after the previous entry.
    pub fn add_rest(&mut self, rhythm: u64)
        requires
            old(self).wf(),
            old(self).duration_spec() + rhythm <= MAX_TIMELINE_MICROBEATS,
        ensures
            final (self).wf(),
            final (self).entries_spec() == old(self).entries_spec().push(PhraseEntry::Rest(rhythm)),
            final (self).duration_spec() == old(self).duration_spec() + rhythm,
            final (self).name_spec() == old(self).name_spec(),
    {
        self.duration = self.duration + rhythm;
        self.entries.push(PhraseEntry::Rest(rhythm));
        proof {
            assert(self.entries_spec().drop_last() =~= old(self).entries_spec());
        }
    }

    /// Returns the entries of the phrase.
    pub fn entries(&self) -> (r: &Vec<PhraseEntry>)
        ensures
            r@ == self.entries_spec(),
    {
        &self.entries
    }

    /// Returns the phrase's name.
    pub fn name(&self) -> (r: &String)
        ensures
            r@ == self.name_spec(),
    {
        &self.name
    }

    /// Returns the total duration (in microbeats) of the `Phrase`: the
    /// sum of its entries' rhythm values.
    pub fn duration(&self) -> (r: u64)
        ensures
            r == self.duration_spec(),
            self.wf() ==> r == sum_rhythms(self.entries_spec()),
    {
        self.duration
    }
}

impl Default for Phrase {
    /// An empty, unnamed phrase.
    fn default() -> (p: Phrase)
        ensures
            p.entries_spec() == Seq::<PhraseEntry>::empty(),
            p.duration_spec() == 0,
            p.name_spec() == Seq::<char>::empty(),
            p.wf(),
    {
        Phrase::new()
    }
}

} // verus!
