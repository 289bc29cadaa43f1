use rust_music::errors::{ChordError, NoteError, ScoreError};
use rust_music::{Chord, Error, Instrument, Note, Part, Phrase, Score, Tempo};
use rust_music::dynamic::{F, MF};
use rust_music::rhythm::{CROTCHET, MINIM, QUAVER, SEMIQUAVER};

#[test]
fn note_rejects_zero_rhythm() {
    assert_eq!(
        Note::new(60, 0, MF),
        Err(Error::Note(NoteError::InvalidRhythm(0)))
    );
    let n = Note::new(60, 1, MF).unwrap();
    assert_eq!(n.rhythm(), 1);
}

#[test]
fn note_accessors_return_construction_values() {
    let n = Note::new(72, CROTCHET, F).unwrap();
    assert_eq!(n.pitch(), 72);
    assert_eq!(n.rhythm(), CROTCHET);
    assert_eq!(n.dynamic(), F);
}

#[test]
fn new_sequence_shares_rhythm_and_dynamic() {
    let notes = Note::new_sequence(QUAVER, MF, &[60, 64, 67]).unwrap();
    assert_eq!(notes.len(), 3);
    for (i, pitch) in [60u8, 64, 67].iter().enumerate() {
        assert_eq!(notes[i].pitch(), *pitch);
        assert_eq!(notes[i].rhythm(), QUAVER);
        assert_eq!(notes[i].dynamic(), MF);
    }
    assert_eq!(
        Note::new_sequence(0, MF, &[60]),
        Err(Error::Note(NoteError::InvalidRhythm(0)))
    );
}

#[test]
fn chord_rhythm_may_not_outlast_every_note() {
    // notes of two and three beats
    let notes = vec![
        Note::new(60, 2_000_000, MF).unwrap(),
        Note::new(64, 3_000_000, MF).unwrap(),
    ];
    assert!(Chord::new(1_000_000, notes.clone()).is_ok());
    assert_eq!(
        Chord::new(4_000_000, notes),
        Err(Error::Chord(ChordError::RhythmTooLong))
    );
}

#[test]
fn chord_rhythm_equal_to_longest_note_is_valid() {
    let notes = vec![
        Note::new(60, 2_000_000, MF).unwrap(),
        Note::new(64, 3_000_000, MF).unwrap(),
    ];
    let c = Chord::new(3_000_000, notes).unwrap();
    assert_eq!(c.rhythm(), 3_000_000);
    assert_eq!(c.notes().len(), 2);
}

#[test]
fn empty_chord_is_rejected() {
    assert_eq!(
        Chord::new(CROTCHET, Vec::new()),
        Err(Error::Chord(ChordError::EmptyChord))
    );
    assert_eq!(
        Chord::from_pitches(CROTCHET, MF, &[]),
        Err(Error::Chord(ChordError::EmptyChord))
    );
}

#[test]
fn chord_from_pitches_rejects_zero_rhythm() {
    assert_eq!(
        Chord::from_pitches(0, MF, &[60, 64]),
        Err(Error::Note(NoteError::InvalidRhythm(0)))
    );
}

#[test]
fn empty_phrase_has_zero_duration() {
    let phrase = Phrase::new();
    assert_eq!(phrase.duration(), 0);
    assert_eq!(phrase.entries().len(), 0);
    assert_eq!(Phrase::default().duration(), 0);
}

#[test]
fn chord_from_pitches_builds_uniform_notes() {
    let c = Chord::from_pitches(MINIM, MF, &[60, 64, 67]).unwrap();
    assert_eq!(c.rhythm(), MINIM);
    assert_eq!(c.notes().len(), 3);
    for n in c.notes() {
        assert_eq!(n.rhythm(), MINIM);
        assert_eq!(n.dynamic(), MF);
    }
}

#[test]
fn phrase_duration_is_the_sum_of_advances() {
    // advances of half, quarter and one beat: 1.75 beats in all
    let mut phrase = Phrase::new();
    phrase.add_note(Note::new(60, QUAVER, MF).unwrap());
    phrase.add_rest(SEMIQUAVER);
    phrase.add_chord(Chord::from_pitches(CROTCHET, MF, &[64, 67]).unwrap());
    assert_eq!(phrase.duration(), 1_750_000);
    assert_eq!(phrase.entries().len(), 3);
}

#[test]
fn chord_advances_a_phrase_by_its_own_rhythm_only() {
    let mut phrase = Phrase::new();
    let trailing = Chord::new(SEMIQUAVER, vec![Note::new(60, MINIM, MF).unwrap()]).unwrap();
    phrase.add_chord(trailing);
    assert_eq!(phrase.duration(), SEMIQUAVER);
}

#[test]
fn from_notes_sequence_sums_durations() {
    let notes = Note::new_sequence(CROTCHET, MF, &[60, 64, 67]).unwrap();
    let phrase = Phrase::from_notes_sequence(notes).unwrap();
    assert_eq!(phrase.duration(), 3_000_000);
    assert_eq!(phrase.entries().len(), 3);
}

#[test]
fn add_sequential_notes_appends_in_order() {
    let mut phrase = Phrase::new();
    phrase.add_rest(CROTCHET);
    let notes = Note::new_sequence(QUAVER, MF, &[60, 62]).unwrap();
    phrase.add_sequential_notes(notes).unwrap();
    assert_eq!(phrase.duration(), 2_000_000);
    assert_eq!(phrase.entries().len(), 3);
}

#[test]
fn phrase_and_part_names_are_stored() {
    let mut phrase = Phrase::new();
    phrase.set_name(String::from("melody"));
    assert_eq!(phrase.name().as_str(), "melody");
    let mut part = Part::new(Instrument::NoProgram);
    part.set_name(String::from("piano"));
    assert_eq!(part.name().as_str(), "piano");
}

#[test]
fn part_duration_is_the_latest_phrase_end() {
    let mut phrase = Phrase::new();
    phrase.add_note(Note::new(60, CROTCHET, MF).unwrap());

    let mut part = Part::new(Instrument::NoProgram);
    part.add_phrase(phrase.clone(), 0);
    assert_eq!(part.duration(), CROTCHET);

    // an overlapping phrase ending earlier does not shorten the part
    part.add_phrase(phrase.clone(), 2_000_000);
    assert_eq!(part.duration(), 3_000_000);
    part.add_phrase(phrase.clone(), 500_000);
    assert_eq!(part.duration(), 3_000_000);
    assert_eq!(part.phrases().len(), 3);
}

#[test]
fn append_phrase_positions() {
    let mut phrase = Phrase::new();
    phrase.add_note(Note::new(60, CROTCHET, MF).unwrap());

    let mut part = Part::new(Instrument::NoProgram);
    part.add_phrase(phrase.clone(), 4_000_000);
    // after the last added phrase: starts at its end
    part.append_phrase_to_previous(phrase.clone());
    assert_eq!(part.duration(), 6_000_000);
    // after the whole part: starts at the latest end
    part.add_phrase(phrase.clone(), 0);
    part.append_phrase_to_part_end(phrase.clone());
    assert_eq!(part.duration(), 7_000_000);
}

#[test]
fn tempo_zero_is_rejected() {
    assert_eq!(Tempo::new(0), Err(Error::Score(ScoreError::InvalidTempo)));
    assert!(Tempo::new(1).is_ok());
    assert!(Tempo::new(208).is_ok());
}

#[test]
fn set_tempo_validates_like_the_constructor() {
    let mut score = Score::new(String::from("s"), Tempo::new(60).unwrap(), None);
    assert_eq!(score.tempo(), 60);
    assert_eq!(
        score.set_tempo(0),
        Err(Error::Score(ScoreError::InvalidTempo))
    );
    assert_eq!(score.tempo(), 60);
    assert_eq!(score.set_tempo(90), Ok(()));
    assert_eq!(score.tempo(), 90);
}

#[test]
fn score_stores_name_parts_and_metadata() {
    let mut score = Score::new(String::from("title"), Tempo::new(120).unwrap(), None);
    assert_eq!(score.name().as_str(), "title");
    assert!(score.metadata().is_none());
    assert_eq!(score.parts().len(), 0);
    score.add_part(Part::new(Instrument::Program(0)));
    assert_eq!(score.parts().len(), 1);
}
