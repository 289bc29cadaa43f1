use rust_music::{compute_pitch, pitch_info, Accidental, Error, NoteName};
use rust_music::errors::NoteError;

#[test]
fn pitch_test() {
    let test_cases = vec![
        (NoteName::C, Accidental::Sharp, 2, true, 25),
        (NoteName::B, Accidental::Natural, 1, false, 23),
        (NoteName::B, Accidental::Natural, 1, true, 23),
        (NoteName::C, Accidental::Natural, 2, true, 24),
        (NoteName::C, Accidental::Natural, 2, false, 24),
        (NoteName::D, Accidental::Natural, 2, false, 26),
        (NoteName::E, Accidental::Natural, 2, false, 28),
        (NoteName::F, Accidental::Natural, 2, true, 29),
        (NoteName::G, Accidental::Sharp, 5, true, 68),
        (NoteName::A, Accidental::Flat, 9, false, 116),
    ];

    let compute_only_cases = vec![
        (NoteName::B, Accidental::Sharp, 1, true, 24),
        (NoteName::C, Accidental::Flat, 2, false, 23),
        (NoteName::E, Accidental::Sharp, 2, true, 29),
    ];

    for (name, acc, octave, sharps, out) in test_cases {
        assert_eq!(compute_pitch(name, acc, octave).unwrap(), out);
        assert_eq!(pitch_info(out, sharps), (name, acc, octave));
    }
    for (name, acc, octave, _, out) in compute_only_cases {
        assert_eq!(compute_pitch(name, acc, octave).unwrap(), out);
    }
}

#[test]
fn note_name_letters_alias_solfege_names() {
    assert_eq!(NoteName::C, NoteName::Do);
    assert_eq!(NoteName::A, NoteName::La);
    assert_ne!(NoteName::C, NoteName::D);
}

#[test]
fn pitch_above_midi_range_is_rejected() {
    // B#10 names semitone 132, beyond the 7-bit MIDI range
    assert_eq!(
        compute_pitch(NoteName::B, Accidental::Sharp, 10),
        Err(Error::Note(NoteError::InvalidPitch(132)))
    );
}

#[test]
fn pitch_below_zero_is_rejected() {
    // the flat of C0 underflows below pitch zero
    assert_eq!(
        compute_pitch(NoteName::C, Accidental::Flat, 0),
        Err(Error::Note(NoteError::InvalidPitch(u32::MAX)))
    );
}

#[test]
fn pitch_info_names_flats_and_sharps() {
    // pitch 61 is a C sharp or a D flat depending on the sharps flag
    assert_eq!(pitch_info(61, true), (NoteName::C, Accidental::Sharp, 5));
    assert_eq!(pitch_info(61, false), (NoteName::D, Accidental::Flat, 5));
}
