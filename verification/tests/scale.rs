use rust_music::composition::scale::{Scale, ScaleMode, ScalePitchesIterator};
use rust_music::dynamic::MF;
use rust_music::rhythm::CROTCHET;
use rust_music::Note;

fn collect(mut it: ScalePitchesIterator) -> Vec<u8> {
    let mut pitches = Vec::new();
    while let Some(p) = it.next() {
        pitches.push(p);
    }
    pitches
}

#[test]
fn scale_pitches_iterator() {
    let it = ScalePitchesIterator::new(5, vec![3, 5, 7], 6);
    let pitches = collect(it);

    let s = Note::new_sequence(CROTCHET, MF, &pitches).unwrap();
    let expected = vec![
        Note::new(5, CROTCHET, MF).unwrap(),
        Note::new(8, CROTCHET, MF).unwrap(),
        Note::new(10, CROTCHET, MF).unwrap(),
        Note::new(12, CROTCHET, MF).unwrap(),
        Note::new(17, CROTCHET, MF).unwrap(),
        Note::new(20, CROTCHET, MF).unwrap(),
    ];
    assert_eq!(expected, s);
}

#[test]
fn major_scale_pitches() {
    let scale = Scale::new(60, ScaleMode::MAJOR);
    assert_eq!(collect(scale.pitches()), vec![60, 62, 64, 65, 67, 69, 71]);
}

#[test]
fn n_pitches_continues_on_next_octave() {
    let scale = Scale::new(60, ScaleMode::MAJOR);
    assert_eq!(
        collect(scale.n_pitches(10)),
        vec![60, 62, 64, 65, 67, 69, 71, 72, 74, 76]
    );
}

#[test]
fn minor_scale_pitches() {
    let scale = Scale::new(57, ScaleMode::NATURAL_MINOR);
    assert_eq!(collect(scale.pitches()), vec![57, 59, 60, 62, 64, 65, 67]);
}

#[test]
fn iteration_never_resumes_after_leaving_the_range() {
    // from tonic 120 with a single interval of 3 semitones, the octave
    // wrap would pass 127: the iteration ends there for good
    let mut it = ScalePitchesIterator::new(120, vec![3], 4);
    assert_eq!(it.next(), Some(120));
    assert_eq!(it.next(), Some(123));
    assert_eq!(it.next(), None);
    assert_eq!(it.next(), None);
}

#[test]
fn iteration_stops_at_top_of_midi_range() {
    // from 120, the major scale leaves the 7-bit range at 120 + 9
    let scale = Scale::new(120, ScaleMode::MAJOR);
    assert_eq!(collect(scale.pitches()), vec![120, 122, 124, 125, 127]);
}
