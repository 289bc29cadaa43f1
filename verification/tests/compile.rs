use rust_music::errors::ToMidiConversionError;
use rust_music::rhythm::{CROTCHET, QUAVER, SEMIQUAVER};
use rust_music::{
    Chord, Error, EventKind, Instrument, Metadata, Mode, Note, Part, Phrase, Score, Tempo,
    TimedEvent, TrackFormat,
};

fn ev(delta: u64, kind: EventKind) -> TimedEvent {
    TimedEvent { delta, kind }
}

fn single_note_score(name: &str, tempo: u32, instrument: Instrument) -> Score {
    let mut phrase = Phrase::new();
    phrase.add_note(Note::new(60, CROTCHET, 70).unwrap());
    let mut part = Part::new(instrument);
    part.add_phrase(phrase, 0);
    let mut score = Score::new(String::from(name), Tempo::new(tempo).unwrap(), None);
    score.add_part(part);
    score
}

#[test]
fn single_note_compiles_to_note_on_and_note_off() {
    let score = single_note_score("test", 60, Instrument::NoProgram);
    let file = score.compile().unwrap();
    assert_eq!(file.format, TrackFormat::SingleTrack);
    assert_eq!(file.division, 480);
    assert_eq!(file.tracks.len(), 1);
    assert_eq!(
        file.tracks[0],
        vec![
            ev(0, EventKind::TrackName(String::from("test"))),
            ev(0, EventKind::Tempo(1_000_000)),
            ev(0, EventKind::NoteOn { channel: 0, key: 60, vel: 70 }),
            ev(480, EventKind::NoteOff { channel: 0, key: 60, vel: 0 }),
            ev(0, EventKind::EndOfTrack),
        ]
    );
}

#[test]
fn chord_note_trails_past_the_next_entry() {
    // a chord advancing a quarter beat whose single note sounds two
    // beats, followed by a short note: the first note trails
    let mut phrase = Phrase::new();
    let trailing = Chord::new(SEMIQUAVER, vec![Note::new(60, 2_000_000, 70).unwrap()]).unwrap();
    phrase.add_chord(trailing);
    phrase.add_note(Note::new(64, SEMIQUAVER, 70).unwrap());
    let mut part = Part::new(Instrument::NoProgram);
    part.add_phrase(phrase, 0);
    let mut score = Score::new(String::from("trail"), Tempo::new(60).unwrap(), None);
    score.add_part(part);

    let file = score.compile().unwrap();
    assert_eq!(file.tracks.len(), 1);
    assert_eq!(
        file.tracks[0],
        vec![
            ev(0, EventKind::TrackName(String::from("trail"))),
            ev(0, EventKind::Tempo(1_000_000)),
            ev(0, EventKind::NoteOn { channel: 0, key: 60, vel: 70 }),
            ev(120, EventKind::NoteOn { channel: 0, key: 64, vel: 70 }),
            ev(120, EventKind::NoteOff { channel: 0, key: 64, vel: 0 }),
            ev(720, EventKind::NoteOff { channel: 0, key: 60, vel: 0 }),
            ev(0, EventKind::EndOfTrack),
        ]
    );
}

#[test]
fn note_off_precedes_note_on_at_the_same_tick() {
    // the first note ends exactly where the second begins: a clean
    // retrigger, the note-off first
    let mut phrase = Phrase::new();
    phrase.add_note(Note::new(60, CROTCHET, 70).unwrap());
    phrase.add_note(Note::new(60, CROTCHET, 70).unwrap());
    let mut part = Part::new(Instrument::NoProgram);
    part.add_phrase(phrase, 0);
    let mut score = Score::new(String::from("re"), Tempo::new(60).unwrap(), None);
    score.add_part(part);

    let file = score.compile().unwrap();
    assert_eq!(
        file.tracks[0],
        vec![
            ev(0, EventKind::TrackName(String::from("re"))),
            ev(0, EventKind::Tempo(1_000_000)),
            ev(0, EventKind::NoteOn { channel: 0, key: 60, vel: 70 }),
            ev(480, EventKind::NoteOff { channel: 0, key: 60, vel: 0 }),
            ev(0, EventKind::NoteOn { channel: 0, key: 60, vel: 70 }),
            ev(480, EventKind::NoteOff { channel: 0, key: 60, vel: 0 }),
            ev(0, EventKind::EndOfTrack),
        ]
    );
}

#[test]
fn overlapping_phrases_merge_by_tick() {
    let mut low = Phrase::new();
    low.add_note(Note::new(60, CROTCHET, 70).unwrap());
    let mut high = Phrase::new();
    high.add_note(Note::new(64, CROTCHET, 70).unwrap());
    let mut part = Part::new(Instrument::NoProgram);
    part.add_phrase(low, 0);
    part.add_phrase(high, QUAVER);
    let mut score = Score::new(String::from("poly"), Tempo::new(60).unwrap(), None);
    score.add_part(part);

    let file = score.compile().unwrap();
    assert_eq!(
        file.tracks[0],
        vec![
            ev(0, EventKind::TrackName(String::from("poly"))),
            ev(0, EventKind::Tempo(1_000_000)),
            ev(0, EventKind::NoteOn { channel: 0, key: 60, vel: 70 }),
            ev(240, EventKind::NoteOn { channel: 0, key: 64, vel: 70 }),
            ev(240, EventKind::NoteOff { channel: 0, key: 60, vel: 0 }),
            ev(240, EventKind::NoteOff { channel: 0, key: 64, vel: 0 }),
            ev(0, EventKind::EndOfTrack),
        ]
    );
}

#[test]
fn metadata_and_instrument_fill_the_prologue() {
    let mut phrase = Phrase::new();
    phrase.add_note(Note::new(72, CROTCHET, 85).unwrap());
    let mut part = Part::new(Instrument::Program(19));
    part.add_phrase(phrase, 0);
    let metadata = Metadata {
        key_signature: -3,
        mode: Mode::Minor,
        time_numerator: 6,
        time_denominator: 8,
    };
    let mut score = Score::new(
        String::from("organ"),
        Tempo::new(120).unwrap(),
        Some(metadata),
    );
    score.add_part(part);

    let file = score.compile().unwrap();
    assert_eq!(
        file.tracks[0],
        vec![
            ev(0, EventKind::TrackName(String::from("organ"))),
            ev(0, EventKind::Tempo(500_000)),
            ev(0, EventKind::TimeSignature(6, 8, 24, 8)),
            ev(0, EventKind::KeySignature(-3, true)),
            ev(0, EventKind::ProgramChange { channel: 0, program: 19 }),
            ev(0, EventKind::NoteOn { channel: 0, key: 72, vel: 85 }),
            ev(480, EventKind::NoteOff { channel: 0, key: 72, vel: 0 }),
            ev(0, EventKind::EndOfTrack),
        ]
    );
}

#[test]
fn each_part_gets_its_own_track_with_the_prologue_repeated() {
    let mut phrase = Phrase::new();
    phrase.add_note(Note::new(60, CROTCHET, 70).unwrap());
    let mut first = Part::new(Instrument::NoProgram);
    first.add_phrase(phrase.clone(), 0);
    let mut second = Part::new(Instrument::NoProgram);
    second.add_phrase(phrase, 0);
    let mut score = Score::new(String::from("duo"), Tempo::new(60).unwrap(), None);
    score.add_part(first);
    score.add_part(second);

    let file = score.compile().unwrap();
    assert_eq!(file.format, TrackFormat::Parallel);
    assert_eq!(file.tracks.len(), 2);
    for (channel, track) in file.tracks.iter().enumerate() {
        assert_eq!(
            track[0],
            ev(0, EventKind::TrackName(String::from("duo")))
        );
        assert_eq!(track[1], ev(0, EventKind::Tempo(1_000_000)));
        assert_eq!(
            track[2],
            ev(
                0,
                EventKind::NoteOn { channel: channel as u8, key: 60, vel: 70 }
            )
        );
    }
}

#[test]
fn seventeen_parts_fail_sixteen_succeed() {
    let mut score = Score::new(String::from("big"), Tempo::new(60).unwrap(), None);
    for _ in 0..17 {
        score.add_part(Part::new(Instrument::NoProgram));
    }
    assert_eq!(
        score.compile(),
        Err(Error::ToMidiConversion(ToMidiConversionError::TooManyParts(
            17
        )))
    );

    let mut score = Score::new(String::from("full"), Tempo::new(60).unwrap(), None);
    for _ in 0..16 {
        score.add_part(Part::new(Instrument::NoProgram));
    }
    let file = score.compile().unwrap();
    assert_eq!(file.format, TrackFormat::Parallel);
}

#[test]
fn rest_only_part_emits_no_track() {
    let mut rests = Phrase::new();
    rests.add_rest(CROTCHET);
    rests.add_rest(QUAVER);
    let mut part = Part::new(Instrument::Program(5));
    part.add_phrase(rests, 0);
    let mut score = Score::new(String::from("silence"), Tempo::new(60).unwrap(), None);
    score.add_part(part);

    let file = score.compile().unwrap();
    // no track results, so the file is not single-track
    assert_eq!(file.format, TrackFormat::Parallel);
    assert_eq!(file.tracks.len(), 0);
}

#[test]
fn rest_only_part_keeps_its_channel_reserved() {
    // channel numbers follow part positions even when an earlier part
    // emits no track
    let mut rests = Phrase::new();
    rests.add_rest(CROTCHET);
    let mut silent_part = Part::new(Instrument::NoProgram);
    silent_part.add_phrase(rests, 0);

    let mut phrase = Phrase::new();
    phrase.add_note(Note::new(60, CROTCHET, 70).unwrap());
    let mut sounding_part = Part::new(Instrument::NoProgram);
    sounding_part.add_phrase(phrase, 0);

    let mut score = Score::new(String::from("pair"), Tempo::new(60).unwrap(), None);
    score.add_part(silent_part);
    score.add_part(sounding_part);

    let file = score.compile().unwrap();
    assert_eq!(file.tracks.len(), 1);
    // exactly one track results, so the file is single-track even
    // though the score has two parts
    assert_eq!(file.format, TrackFormat::SingleTrack);
    assert_eq!(
        file.tracks[0][2],
        ev(0, EventKind::NoteOn { channel: 1, key: 60, vel: 70 })
    );
}

#[test]
fn tempo_event_divides_a_minute_of_microseconds() {
    let file = single_note_score("t", 90, Instrument::NoProgram)
        .compile()
        .unwrap();
    assert_eq!(file.tracks[0][1], ev(0, EventKind::Tempo(666_666)));
}

#[test]
fn start_beat_rounds_to_ticks_once() {
    // a third of a beat, stored to the microbeat, starts at tick 160
    let mut phrase = Phrase::new();
    phrase.add_note(Note::new(60, CROTCHET, 70).unwrap());
    let mut part = Part::new(Instrument::NoProgram);
    part.add_phrase(phrase, 333_333);
    let mut score = Score::new(String::from("ter"), Tempo::new(60).unwrap(), None);
    score.add_part(part);

    let file = score.compile().unwrap();
    // 333_333 microbeats round to 160 ticks once; the note-off then
    // lands exactly 480 ticks later
    assert_eq!(
        file.tracks[0][2],
        ev(160, EventKind::NoteOn { channel: 0, key: 60, vel: 70 })
    );
    let deltas: Vec<u64> = file.tracks[0].iter().map(|e| e.delta).collect();
    assert_eq!(deltas, vec![0, 0, 160, 480, 0]);
}

#[test]
fn empty_score_compiles_to_no_tracks() {
    let score = Score::new(String::from("empty"), Tempo::new(60).unwrap(), None);
    let file = score.compile().unwrap();
    assert_eq!(file.format, TrackFormat::Parallel);
    assert_eq!(file.tracks.len(), 0);
}
