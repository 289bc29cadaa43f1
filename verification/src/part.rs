//! Parts: phrases placed at start beats, played by one instrument.

use vstd::prelude::*;

use crate::instrument::Instrument;
use crate::phrase::Phrase;
use crate::ticks::MAX_TIMELINE_MICROBEATS;

verus! {

/// The beat (in microbeats) at which the latest-ending of `phrases`
/// ends: the span of a part (0 when there is no phrase).
pub open spec fn max_phrase_end(phrases: Seq<(u64, Phrase)>) -> int
    decreases phrases.len(),
{
    if phrases.len() == 0 {
        0
    } else {
        let rest = max_phrase_end(phrases.drop_last());
        let last = phrases.last().0 + phrases.last().1.duration_spec();
        if last >= rest {
            last
        } else {
            rest
        }
    }
}

/// A score's part.  A `Part` is played by a single instrument and can
/// contain multiple phrases, played sequentially or simultaneously:
/// phrases may share or overlap start beats, which is how one part
/// achieves polyphony.
#[derive(Debug, Clone)]
pub struct Part {
    /// The phrases of the `Part`, each paired with the beat (in
    /// microbeats) at which it starts.
    phrases: Vec<(u64, Phrase)>,
    /// The instrument playing the `Part`.
    instrument: Instrument,
    /// The span in microbeats of the `Part`: the end of the phrase
    /// that finishes the latest.
    duration: u64,
    /// The end (in microbeats) of the last added `Phrase`.
    previous_phrase_end: u64,
    /// The title of the `Part`.
    name: String,
}

impl Part {
    /// The phrases of the part with their start beats, in insertion
    /// order.
    pub closed spec fn phrases_spec(&self) -> Seq<(u64, Phrase)> {
        self.phrases@
    }

    /// The instrument playing the part.
    pub closed spec fn instrument_spec(&self) -> Instrument {
        self.instrument
    }

    /// The span of the part in microbeats.
    pub closed spec fn duration_spec(&self) -> u64 {
        self.duration
    }

    /// The end in microbeats of the last added phrase.
    pub closed spec fn previous_phrase_end_spec(&self) -> u64 {
        self.previous_phrase_end
    }

    /// The title of the part.
    pub closed spec fn name_spec(&self) -> Seq<char> {
        self.name@
    }

    /// Validity of a constructed part: every phrase is well formed and
    /// ends within the timeline bound, the stored duration is the
    /// latest phrase end, and the stored previous end is the end of the
    /// last added phrase.
    pub open spec fn wf(&self) -> bool {
        &&& forall|i: int|
            0 <= i < self.phrases_spec().len() ==> ((#[trigger] self.phrases_spec()[i]).1.wf()
                && self.phrases_spec()[i].0 + self.phrases_spec()[i].1.duration_spec()
                <= MAX_TIMELINE_MICROBEATS)
        &&& self.duration_spec() == max_phrase_end(self.phrases_spec())
        &&& self.previous_phrase_end_spec() == (if self.phrases_spec().len() == 0 {
            0int
        } else {
            self.phrases_spec().last().0 + self.phrases_spec().last().1.duration_spec()
        })
        &&& self.instrument_spec().wf()
    }

    /// Returns a new empty `Part` with the given `instrument` and an
    /// empty name.
    pub fn new(instrument: Instrument) -> (p: Part)
        requires
            instrument.wf(),
        ensures
            p.phrases_spec() == Seq::<(u64, Phrase)>::empty(),
            p.instrument_spec() == instrument,
            p.duration_spec() == 0,
            p.previous_phrase_end_spec() == 0,
            p.name_spec() == Seq::<char>::empty(),
            p.wf(),
    {
        let p = Part {
            phrases: Vec::new(),
            instrument,
            duration: 0,
            previous_phrase_end: 0,
            name: String::new(),
        };
        proof {
            assert(max_phrase_end(p.phrases_spec()) == 0);
        }
        p
    }

    /// Sets a name for the `Part`.  The name does not have to be
    /// unique.
    pub fn set_name(&mut self, name: String)
        ensures
            final (self).phrases_spec() == old(self).phrases_spec(),
            final (self).instrument_spec() == old(self).instrument_spec(),
            final (self).duration_spec() == old(self).duration_spec(),
            final (self).previous_phrase_end_spec() == old(self).previous_phrase_end_spec(),
            final (self).name_spec() == name@,
    {
        self.name = name;
    }

    /// Inserts a `Phrase` in the `Part`, starting at beat `start_beat`
    /// (in microbeats).  The `Phrase` is played in parallel with any
    /// other phrase whose span covers `start_beat`.
    pub fn add_phrase(&mut self, phrase: Phrase, start_beat: u64)
        requires
            old(self).wf(),
            phrase.wf(),
            start_beat + phrase.duration_spec() <= MAX_TIMELINE_MICROBEATS,
        ensures
            final (self).wf(),
            final (self).phrases_spec() == old(self).phrases_spec().push((start_beat, phrase)),
            final (self).instrument_spec() == old(self).instrument_spec(),
            final (self).duration_spec() == (if start_beat + phrase.duration_spec() >= old(
                self,
            ).duration_spec() {
                start_beat + phrase.duration_spec()
            } else {
                old(self).duration_spec() as int
            }),
            final (self).previous_phrase_end_spec() == start_beat + phrase.duration_spec(),
            final (self).name_spec() == old(self).name_spec(),
    {
        let phrase_end = start_beat + phrase.duration();
        if phrase_end > self.duration {
            self.duration = phrase_end;
        }
        self.previous_phrase_end = phrase_end;
        self.phrases.push((start_beat, phrase));
        proof {
            assert(self.phrases_spec().drop_last() =~= old(self).phrases_spec());
        }
    }

    /// Appends a `Phrase` immediately at the end of the last added
    /// `Phrase`.  If phrases added before the last one were longer,
    /// they are played in parallel with the new `Phrase`.
    pub fn append_phrase_to_previous(&mut self, phrase: Phrase)
        requires
            old(self).wf(),
            phrase.wf(),
            old(self).previous_phrase_end_spec() + phrase.duration_spec()
                <= MAX_TIMELINE_MICROBEATS,
        ensures
            final (self).wf(),
            final (self).phrases_spec() == old(self).phrases_spec().push(
                (old(self).previous_phrase_end_spec(), phrase),
            ),
            final (self).instrument_spec() == old(self).instrument_spec(),
            final (self).previous_phrase_end_spec() == old(self).previous_phrase_end_spec()
                + phrase.duration_spec(),
            final (self).name_spec() == old(self).name_spec(),
    {
        let start = self.previous_phrase_end;
        self.add_phrase(phrase, start)
    }

    /// Appends a `Phrase` immediately at the end of the entire `Part`,
    /// i.e. the end of the `Phrase` that ends the latest.
    pub fn append_phrase_to_part_end(&mut self, phrase: Phrase)
        requires
            old(self).wf(),
            phrase.wf(),
            old(self).duration_spec() + phrase.duration_spec() <= MAX_TIMELINE_MICROBEATS,
        ensures
            final (self).wf(),
            final (self).phrases_spec() == old(self).phrases_spec().push(
                (old(self).duration_spec(), phrase),
            ),
            final (self).instrument_spec() == old(self).instrument_spec(),
            final (self).duration_spec() == old(self).duration_spec() + phrase.duration_spec(),
            final (self).previous_phrase_end_spec() == old(self).duration_spec()
                + phrase.duration_spec(),
            final (self).name_spec() == old(self).name_spec(),
    {
        let start = self.duration;
        self.add_phrase(phrase, start)
    }

    /// Returns the title of the `Part`.
    pub fn name(&self) -> (r: &String)
        ensures
            r@ == self.name_spec(),
    {
        &self.name
    }

    /// Returns the phrases of the `Part`, each with its start beat in
    /// microbeats.
    pub fn phrases(&self) -> (r: &Vec<(u64, Phrase)>)
        ensures
            r@ == self.phrases_spec(),
    {
        &self.phrases
    }

    /// Returns the instrument playing the `Part`.
    pub fn instrument(&self) -> (r: Instrument)
        ensures
            r == self.instrument_spec(),
    {
        self.instrument
    }

    /// Returns the total duration (in microbeats) of the `Part`: the
    /// end of the phrase that finishes the latest.
    pub fn duration(&self) -> (r: u64)
        ensures
            r == self.duration_spec(),
            self.wf() ==> r == max_phrase_end(self.phrases_spec()),
    {
        self.duration
    }
}

} // verus!
