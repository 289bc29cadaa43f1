//! Scores, their metadata, and the timeline compiler.

use vstd::prelude::*;

use crate::errors::{Error, ScoreError, ToMidiConversionError};
use crate::events::{EventKind, MidiFile, TimedEvent, TrackFormat};
use crate::instrument::Instrument;
use crate::part::Part;
use crate::schedule::{absolute_tick, compile_part, delta_encoded, part_events, sort_events};
use crate::ticks::PULSES_PER_QUARTER_NOTE;

verus! {

/// The scale mode (major or minor; other modes are not specified).
#[derive(Debug, Clone, Copy, PartialEq, Eq, Structural)]
pub enum Mode {
    Major,
    Minor,
}

/// Information about the score that isn't needed for MIDI play, such as
/// the time signature, the key signature (number of accidentals), and
/// the mode.
#[derive(Debug, Clone, Copy, PartialEq, Eq, Structural)]
pub struct Metadata {
    /// The number of accidentals of the `Score`.  Should always be
    /// between -7 and 7; negative numbers are flats, positive numbers
    /// are sharps.
    pub key_signature: i8,
    /// The mode of the scale.
    pub mode: Mode,
    /// The numerator of the time signature.
    pub time_numerator: u8,
    /// The denominator of the time signature, as a power of two.
    pub time_denominator: u8,
}

/// The tempo of a score, in beats per minute.
#[derive(Debug, Clone, Copy, PartialEq, Eq, Structural)]
pub struct Tempo(u32);

impl Tempo {
    /// The tempo in beats per minute.
    pub closed spec fn value_spec(&self) -> u32 {
        self.0
    }

    /// Validity: a tempo is at least one beat per minute.
    pub open spec fn wf(&self) -> bool {
        self.value_spec() >= 1
    }

    /// Returns a new tempo if non-null; otherwise returns an error.
    ///
    /// # Errors
    ///
    /// Returns `Error::Score(ScoreError::InvalidTempo)` if `tempo` is 0.
    pub fn new(tempo: u32) -> (r: Result<Tempo, Error>)
        ensures
            tempo == 0 ==> r == Err::<Tempo, Error>(Error::Score(ScoreError::InvalidTempo)),
            tempo >= 1 ==> (r matches Ok(t) && t.value_spec() == tempo && t.wf()),
    {
        if tempo == 0 {
            return Err(Error::Score(ScoreError::InvalidTempo));
        }
        Ok(Tempo(tempo))
    }
}

/// The tempo meta-event's payload: microseconds per quarter note, by
/// integer division of the microseconds in a minute by the tempo.
pub open spec fn tempo_micros(tempo: u32) -> int {
    (60_000_000 as int) / (tempo as int)
}

/// How many events the metadata prologue of a track holds: track name
/// and tempo always; time signature and key signature when metadata is
/// present; one program change when the part has an instrument.
pub open spec fn head_len(metadata: Option<Metadata>, instrument: Instrument) -> int {
    2 + (if metadata is Some {
        2int
    } else {
        0int
    }) + (if instrument is Program {
        1int
    } else {
        0int
    })
}

/// The metadata prologue every emitted track opens with: the track
/// name, the tempo, then (when metadata is present) the time signature
/// (MIDI clocks per click fixed at 24, 32nd notes per quarter fixed at
/// 8) and the key signature, and last (when the part has an
/// instrument) the program change for the part's channel.  All carry
/// delta 0.
pub open spec fn track_head_ok(
    t: Seq<TimedEvent>,
    name: Seq<char>,
    tempo: u32,
    metadata: Option<Metadata>,
    instrument: Instrument,
    channel: u8,
) -> bool {
    &&& t.len() >= head_len(metadata, instrument)
    &&& t[0].delta == 0
    &&& t[0].kind matches EventKind::TrackName(n) && n@ == name
    &&& t[1] == (TimedEvent { delta: 0, kind: EventKind::Tempo(tempo_micros(tempo) as u32) })
    &&& (metadata matches Some(m) ==> t[2] == (TimedEvent {
        delta: 0,
        kind: EventKind::TimeSignature(m.time_numerator, m.time_denominator, 24, 8),
    }) && t[3] == (TimedEvent {
        delta: 0,
        kind: EventKind::KeySignature(m.key_signature, m.mode is Minor),
    }))
    &&& (instrument matches Instrument::Program(p) ==> t[head_len(metadata, instrument) - 1]
        == (TimedEvent { delta: 0, kind: EventKind::ProgramChange { channel, program: p } }))
}

/// What one emitted track holds: the metadata prologue, then the
/// part's sorted, delta-encoded note events for its channel, then the
/// end-of-track marker.
pub open spec fn track_ok(
    t: Seq<TimedEvent>,
    name: Seq<char>,
    tempo: u32,
    metadata: Option<Metadata>,
    part: Part,
    channel: u8,
) -> bool {
    let hl = head_len(metadata, part.instrument_spec());
    let sec = delta_encoded(sort_events(part_events(part.phrases_spec())), channel);
    &&& t.len() == hl + sec.len() + 1
    &&& track_head_ok(t, name, tempo, metadata, part.instrument_spec(), channel)
    &&& t.subrange(hl, t.len() - 1) == sec
    &&& t.last() == (TimedEvent { delta: 0, kind: EventKind::EndOfTrack })
}

/// How many of `parts` emit a track: those that schedule at least one
/// note event.
pub open spec fn emitted_count(parts: Seq<Part>) -> int
    decreases parts.len(),
{
    if parts.len() == 0 {
        0
    } else {
        emitted_count(parts.drop_last()) + (if part_events(
            parts.last().phrases_spec(),
        ).len() == 0 {
            0int
        } else {
            1int
        })
    }
}

/// The note events of an emitted track come in ascending tick order:
/// summing the deltas of the section between the prologue and the
/// end-of-track marker never moves backwards.
pub proof fn lemma_track_ticks_ascend(
    t: Seq<TimedEvent>,
    name: Seq<char>,
    tempo: u32,
    metadata: Option<Metadata>,
    part: Part,
    channel: u8,
    i: int,
    j: int,
)
    requires
        track_ok(t, name, tempo, metadata, part, channel),
        head_len(metadata, part.instrument_spec()) <= i <= j < t.len() - 1,
    ensures
        ({
            let hl = head_len(metadata, part.instrument_spec());
            let sec = t.subrange(hl, t.len() - 1);
            absolute_tick(sec, i - hl) <= absolute_tick(sec, j - hl)
        }),
{
    let evs = sort_events(part_events(part.phrases_spec()));
    crate::schedule::lemma_sort_events_props(part_events(part.phrases_spec()));
    let hl = head_len(metadata, part.instrument_spec());
    let sec = t.subrange(hl, t.len() - 1);
    crate::schedule::lemma_delta_encoded_faithful(evs, channel, i - hl);
    crate::schedule::lemma_delta_encoded_faithful(evs, channel, j - hl);
    if i < j {
        assert(crate::schedule::ev_le(evs[i - hl], evs[j - hl]));
    }
}

/// All note-offs due at a tick stand before all note-ons due at that
/// tick in an emitted track: a note ending exactly when another of the
/// same pitch begins is heard as a clean retrigger.
pub proof fn lemma_track_offs_before_ons(
    t: Seq<TimedEvent>,
    name: Seq<char>,
    tempo: u32,
    metadata: Option<Metadata>,
    part: Part,
    channel: u8,
    i: int,
    j: int,
)
    requires
        track_ok(t, name, tempo, metadata, part, channel),
        head_len(metadata, part.instrument_spec()) <= i < j < t.len() - 1,
        ({
            let hl = head_len(metadata, part.instrument_spec());
            let sec = t.subrange(hl, t.len() - 1);
            absolute_tick(sec, i - hl) == absolute_tick(sec, j - hl)
        }),
    ensures
        t[i].kind is NoteOn ==> t[j].kind is NoteOn,
{
    let evs = sort_events(part_events(part.phrases_spec()));
    crate::schedule::lemma_sort_events_props(part_events(part.phrases_spec()));
    let hl = head_len(metadata, part.instrument_spec());
    let sec = t.subrange(hl, t.len() - 1);
    crate::schedule::lemma_delta_encoded_faithful(evs, channel, i - hl);
    crate::schedule::lemma_delta_encoded_faithful(evs, channel, j - hl);
    crate::schedule::lemma_offs_before_ons(evs, channel, i - hl, j - hl);
    assert(t[i] == sec[i - hl]);
    assert(t[j] == sec[j - hl]);
}

/// Builds one emitted track: prologue, note events, end-of-track.
fn build_track(
    name: &String,
    tempo: u32,
    metadata: &Option<Metadata>,
    part: &Part,
    channel: u8,
    section: Vec<TimedEvent>,
) -> (t: Vec<TimedEvent>)
    requires
        part.wf(),
        tempo >= 1,
        section@ == delta_encoded(sort_events(part_events(part.phrases_spec())), channel),
    ensures
        track_ok(t@, name@, tempo, *metadata, *part, channel),
{
    let mut section = section;
    let ghost sec = section@;
    let mut t: Vec<TimedEvent> = Vec::new();
    t.push(TimedEvent { delta: 0, kind: EventKind::TrackName(name.clone()) });
    t.push(TimedEvent { delta: 0, kind: EventKind::Tempo(60_000_000 / tempo) });
    match metadata {
        Some(m) => {
            t.push(
                TimedEvent {
                    delta: 0,
                    kind: EventKind::TimeSignature(m.time_numerator, m.time_denominator, 24, 8),
                },
            );
            let minor = match m.mode {
                Mode::Minor => true,
                Mode::Major => false,
            };
            t.push(TimedEvent { delta: 0, kind: EventKind::KeySignature(m.key_signature, minor) });
        },
        None => {},
    }
    match part.instrument() {
        Instrument::Program(p) => {
            t.push(TimedEvent { delta: 0, kind: EventKind::ProgramChange { channel, program: p } });
        },
        Instrument::NoProgram => {},
    }
    let ghost head = t@;
    proof {
        assert(head.len() == head_len(*metadata, part.instrument_spec()));
    }
    t.append(&mut section);
    t.push(TimedEvent { delta: 0, kind: EventKind::EndOfTrack });
    proof {
        assert(t@.subrange(head.len() as int, t@.len() - 1) =~= sec);
    }
    t
}

/// A full score: a name, a tempo, optional metadata, and the parts to
/// play, in channel order.
#[derive(Debug, Clone)]
pub struct Score {
    /// Title of the `Score`.
    name: String,
    /// List of `Part`s in the `Score`.
    parts: Vec<Part>,
    /// Tempo (beats per minute) at which the `Score` should be played.
    tempo: u32,
    /// Optional information about the `Score`.
    metadata: Option<Metadata>,
}

impl Score {
    /// The title of the score.
    pub closed spec fn name_spec(&self) -> Seq<char> {
        self.name@
    }

    /// The parts of the score, in channel order.
    pub closed spec fn parts_spec(&self) -> Seq<Part> {
        self.parts@
    }

    /// The tempo in beats per minute.
    pub closed spec fn tempo_spec(&self) -> u32 {
        self.tempo
    }

    /// The score's optional metadata.
    pub closed spec fn metadata_spec(&self) -> Option<Metadata> {
        self.metadata
    }

    /// Validity of a constructed score: a non-null tempo and
    /// well-formed parts.
    pub open spec fn wf(&self) -> bool {
        &&& self.tempo_spec() >= 1
        &&& forall|i: int| 0 <= i < self.parts_spec().len() ==> (#[trigger] self.parts_spec()[i]).wf()
    }

    /// Returns a new empty `Score` with the given name, tempo and
    /// optional metadata.
    pub fn new(name: String, tempo: Tempo, metadata: Option<Metadata>) -> (s: Score)
        requires
            tempo.wf(),
        ensures
            s.name_spec() == name@,
            s.parts_spec() == Seq::<Part>::empty(),
            s.tempo_spec() == tempo.value_spec(),
            s.metadata_spec() == metadata,
            s.wf(),
    {
        let tempo_value = match tempo {
            Tempo(v) => v,
        };
        Score { name, parts: Vec::new(), tempo: tempo_value, metadata }
    }

    /// Adds a `Part` to the `Score`.  A score can hold any number of
    /// parts, but compiling to MIDI fails for a score of more than 16
    /// parts, because MIDI only supports 16 channels.
    pub fn add_part(&mut self, part: Part)
        requires
            old(self).wf(),
            part.wf(),
        ensures
            final (self).wf(),
            final (self).parts_spec() == old(self).parts_spec().push(part),
            final (self).name_spec() == old(self).name_spec(),
            final (self).tempo_spec() == old(self).tempo_spec(),
            final (self).metadata_spec() == old(self).metadata_spec(),
    {
        self.parts.push(part);
        proof {
            assert forall|i: int| 0 <= i < self.parts_spec().len() implies (
            #[trigger] self.parts_spec()[i]).wf() by {
                if i < old(self).parts_spec().len() {
                    assert(old(self).parts_spec()[i].wf());
                }
            }
        }
    }

    /// Modifies the tempo of the `Score`.
    ///
    /// # Errors
    ///
    /// Returns `Error::Score(ScoreError::InvalidTempo)` if `tempo` is
    /// 0; the score is then left unchanged.
    pub fn set_tempo(&mut self, tempo: u32) -> (r: Result<(), Error>)
        requires
            old(self).wf(),
        ensures
            final (self).wf(),
            tempo == 0 ==> r == Err::<(), Error>(Error::Score(ScoreError::InvalidTempo))
                && *final (self) == *old(self),
            tempo >= 1 ==> r == Ok::<(), Error>(()) && final (self).tempo_spec() == tempo,
            final (self).name_spec() == old(self).name_spec(),
            final (self).parts_spec() == old(self).parts_spec(),
            final (self).metadata_spec() == old(self).metadata_spec(),
    {
        if tempo == 0 {
            return Err(Error::Score(ScoreError::InvalidTempo));
        }
        self.tempo = tempo;
        proof {
            assert forall|i: int| 0 <= i < self.parts_spec().len() implies (
            #[trigger] self.parts_spec()[i]).wf() by {
                assert(old(self).parts_spec()[i].wf());
            }
        }
        Ok(())
    }

    /// Returns the title of the `Score`.
    pub fn name(&self) -> (r: &String)
        ensures
            r@ == self.name_spec(),
    {
        &self.name
    }

    /// Returns the `Part`s of the `Score`.
    pub fn parts(&self) -> (r: &Vec<Part>)
        ensures
            r@ == self.parts_spec(),
    {
        &self.parts
    }

    /// Returns the tempo of the `Score`.
    pub fn tempo(&self) -> (r: u32)
        ensures
            r == self.tempo_spec(),
    {
        self.tempo
    }

    /// Returns the metadata of the `Score`.
    pub fn metadata(&self) -> (r: &Option<Metadata>)
        ensures
            r == self.metadata_spec(),
    {
        &self.metadata
    }

    /// Compiles the score into tracks of timed MIDI events.
    ///
    /// Each part that schedules at least one note event yields one
    /// track (a part of rests alone yields none), holding the metadata
    /// prologue, the part's note events in ascending tick order with
    /// note-offs before note-ons within one tick and correct
    /// delta-times, and the end-of-track marker.  The part's position
    /// in the score is its MIDI channel.  The file is single-track when
    /// exactly one track results, parallel otherwise.
    ///
    /// # Errors
    ///
    /// Returns `Error::ToMidiConversion(TooManyParts)` if the score
    /// holds more than 16 parts; nothing is compiled then.
    pub fn compile(&self) -> (r: Result<MidiFile, Error>)
        requires
            self.wf(),
        ensures
            self.parts_spec().len() > 16 ==> r == Err::<MidiFile, Error>(
                Error::ToMidiConversion(
                    ToMidiConversionError::TooManyParts(self.parts_spec().len() as usize),
                ),
            ),
            self.parts_spec().len() <= 16 ==> (r matches Ok(f) && {
                &&& f.format == (if emitted_count(self.parts_spec()) == 1 {
                    TrackFormat::SingleTrack
                } else {
                    TrackFormat::Parallel
                })
                &&& f.division == PULSES_PER_QUARTER_NOTE
                &&& f.tracks@.len() == emitted_count(self.parts_spec())
                &&& forall|i: int|
                    0 <= i < self.parts_spec().len() && part_events(
                        (#[trigger] self.parts_spec()[i]).phrases_spec(),
                    ).len() > 0 ==> {
                        let pos = emitted_count(self.parts_spec().take(i));
                        &&& 0 <= pos < f.tracks@.len()
                        &&& track_ok(
                            f.tracks@[pos]@,
                            self.name_spec(),
                            self.tempo_spec(),
                            self.metadata_spec(),
                            self.parts_spec()[i],
                            i as u8,
                        )
                    }
            }),
    {
        if self.parts.len() > 16 {
            return Err(
                Error::ToMidiConversion(ToMidiConversionError::TooManyParts(self.parts.len())),
            );
        }
        let mut tracks: Vec<Vec<TimedEvent>> = Vec::new();
        let mut i: usize = 0;
        while i < self.parts.len()
            invariant
                self.wf(),
                self.parts@.len() <= 16,
                0 <= i <= self.parts@.len(),
                tracks@.len() == emitted_count(self.parts_spec().take(i as int)),
                forall|w: int|
                    0 <= w < i && part_events(
                        (#[trigger] self.parts_spec()[w]).phrases_spec(),
                    ).len() > 0 ==> {
                        let pos = emitted_count(self.parts_spec().take(w));
                        &&& 0 <= pos < tracks@.len()
                        &&& track_ok(
                            tracks@[pos]@,
                            self.name_spec(),
                            self.tempo_spec(),
                            self.metadata_spec(),
                            self.parts_spec()[w],
                            w as u8,
                        )
                    },
            decreases self.parts@.len() - i,
        {
            let part = &self.parts[i];
            proof {
                assert(self.parts_spec()[i as int].wf());
                assert(self.parts_spec().take(i + 1).drop_last() =~= self.parts_spec().take(
                    i as int,
                ));
                assert(self.parts_spec().take(i + 1).last() == self.parts_spec()[i as int]);
            }
            match compile_part(part, i as u8) {
                Some(section) => {
                    let track = build_track(
                        &self.name,
                        self.tempo,
                        &self.metadata,
                        part,
                        i as u8,
                        section,
                    );
                    tracks.push(track);
                },
                None => {},
            }
            i = i + 1;
        }
        proof {
            assert(self.parts_spec().take(self.parts@.len() as int) =~= self.parts_spec());
        }
        let format = if tracks.len() == 1 {
            TrackFormat::SingleTrack
        } else {
            TrackFormat::Parallel
        };
        Ok(MidiFile { format, division: 480, tracks })
    }
}

} // verus!
