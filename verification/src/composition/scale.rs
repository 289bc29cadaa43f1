//! Scales: series of pitches generated from a tonic and a mode.

use vstd::prelude::*;

verus! {

/// The mode (type) of a scale.
#[derive(Debug, Clone, Copy, PartialEq, Eq, Structural)]
pub enum ScaleMode {
    /// The major scale.
    Ionian,
    /// The natural minor scale.
    Aeolian,
    Dorian,
    Lydian,
    Mixolydian,
    Phrygian,
    Locrian,
    HarmonicMinor,
    MelodicMinor,
}

impl ScaleMode {
    pub const MAJOR: Self = Self::Ionian;

    pub const NATURAL_MINOR: Self = Self::Aeolian;

    /// The intervals of the mode: semitones from the tonic to each
    /// further pitch of one octave of the scale, in ascending order.
    pub open spec fn intervals_spec(&self) -> Seq<u8> {
        match self {
            ScaleMode::Ionian => seq![2u8, 4u8, 5u8, 7u8, 9u8, 11u8],
            ScaleMode::Aeolian => seq![2u8, 3u8, 5u8, 7u8, 8u8, 10u8],
            ScaleMode::Dorian => seq![2u8, 3u8, 5u8, 7u8, 9u8, 10u8],
            ScaleMode::Lydian => seq![2u8, 4u8, 6u8, 7u8, 9u8, 11u8],
            ScaleMode::Mixolydian => seq![2u8, 4u8, 5u8, 7u8, 9u8, 10u8],
            ScaleMode::Phrygian => seq![1u8, 3u8, 5u8, 7u8, 8u8, 10u8],
            ScaleMode::Locrian => seq![1u8, 3u8, 5u8, 6u8, 8u8, 10u8],
            ScaleMode::HarmonicMinor => seq![2u8, 3u8, 5u8, 7u8, 8u8, 11u8],
            ScaleMode::MelodicMinor => seq![2u8, 3u8, 5u8, 7u8, 9u8, 11u8],
        }
    }

    /// Returns the list of intervals for this mode.
    pub fn intervals(&self) -> (r: Vec<u8>)
        ensures
            r@ == self.intervals_spec(),
            r@.len() == 6,
            forall|i: int| 0 <= i < r@.len() ==> r@[i] <= 127,
    {
        let r = match self {
            ScaleMode::Ionian => vec![2u8, 4u8, 5u8, 7u8, 9u8, 11u8],
            ScaleMode::Aeolian => vec![2u8, 3u8, 5u8, 7u8, 8u8, 10u8],
            ScaleMode::Dorian => vec![2u8, 3u8, 5u8, 7u8, 9u8, 10u8],
            ScaleMode::Lydian => vec![2u8, 4u8, 6u8, 7u8, 9u8, 11u8],
            ScaleMode::Mixolydian => vec![2u8, 4u8, 5u8, 7u8, 9u8, 10u8],
            ScaleMode::Phrygian => vec![1u8, 3u8, 5u8, 7u8, 8u8, 10u8],
            ScaleMode::Locrian => vec![1u8, 3u8, 5u8, 6u8, 8u8, 10u8],
            ScaleMode::HarmonicMinor => vec![2u8, 3u8, 5u8, 7u8, 8u8, 11u8],
            ScaleMode::MelodicMinor => vec![2u8, 3u8, 5u8, 7u8, 9u8, 11u8],
        };
        proof {
            assert(r@ =~= self.intervals_spec());
        }
        r
    }
}

/// A scale, defined by a tonic pitch and a mode.
#[derive(Debug, Clone, Copy, PartialEq, Eq, Structural)]
pub struct Scale {
    tonic_pitch: u8,
    scale_mode: ScaleMode,
}

impl Scale {
    /// The tonic pitch of the scale.
    pub closed spec fn tonic_spec(&self) -> u8 {
        self.tonic_pitch
    }

    /// The mode of the scale.
    pub closed spec fn mode_spec(&self) -> ScaleMode {
        self.scale_mode
    }

    /// Validity: the tonic is a 7-bit pitch.
    pub open spec fn wf(&self) -> bool {
        self.tonic_spec() <= 127
    }

    /// Creates a new `Scale`.
    pub fn new(tonic_pitch: u8, scale_mode: ScaleMode) -> (s: Self)
        requires
            tonic_pitch <= 127,
        ensures
            s.tonic_spec() == tonic_pitch,
            s.mode_spec() == scale_mode,
            s.wf(),
    {
        Self { tonic_pitch, scale_mode }
    }

    /// Returns an iterator that iterates over all pitches in the scale
    /// once: the tonic and each interval above it.
    pub fn pitches(&self) -> (it: ScalePitchesIterator)
        requires
            self.wf(),
        ensures
            it.intervals_spec() == self.mode_spec().intervals_spec(),
            it.iteration_spec() == 0,
            it.length_spec() == self.mode_spec().intervals_spec().len() + 1,
            it.tonic_spec() == self.tonic_spec(),
            it.wf(),
    {
        let intervals = self.scale_mode.intervals();
        let n = intervals.len() + 1;
        ScalePitchesIterator::new(self.tonic_pitch, intervals, n)
    }

    /// Returns an iterator that iterates over all pitches in the scale
    /// and can continue on the next octaves, until `num_pitches`
    /// pitches have been issued or the pitch has grown too high for
    /// MIDI.
    pub fn n_pitches(&self, num_pitches: usize) -> (it: ScalePitchesIterator)
        requires
            self.wf(),
        ensures
            it.intervals_spec() == self.mode_spec().intervals_spec(),
            it.iteration_spec() == 0,
            it.length_spec() == num_pitches,
            it.tonic_spec() == self.tonic_spec(),
            it.wf(),
    {
        ScalePitchesIterator::new(self.tonic_pitch, self.scale_mode.intervals(), num_pitches)
    }
}

/// Generates a series of pitches from a given series of intervals and a
/// base (tonic) pitch.  If the requested length is longer than the list
/// of intervals, the iteration continues the scale on the next
/// octave(s).  The first pitch issued is always the tonic, and the
/// iteration stops once it has issued `length` pitches or the next
/// pitch would be higher than the maximum MIDI pitch (127).
/// This can either be returned by `Scale::pitches` for a standard scale
/// or created with an arbitrary series of intervals.
#[derive(Debug, Clone)]
pub struct ScalePitchesIterator {
    intervals: Vec<u8>,
    iteration: usize,
    length: usize,
    tonic: u8,
}

impl ScalePitchesIterator {
    /// The intervals the iteration walks, in semitones from the tonic.
    pub closed spec fn intervals_spec(&self) -> Seq<u8> {
        self.intervals@
    }

    /// How many pitches have been issued (or skipped) so far.
    pub closed spec fn iteration_spec(&self) -> usize {
        self.iteration
    }

    /// How many pitches the iteration issues in all.
    pub closed spec fn length_spec(&self) -> usize {
        self.length
    }

    /// The current tonic: it moves up an octave whenever the iteration
    /// wraps around the interval list.
    pub closed spec fn tonic_spec(&self) -> u8 {
        self.tonic
    }

    /// Validity: the tonic and every interval are 7-bit values.
    pub open spec fn wf(&self) -> bool {
        &&& self.tonic_spec() <= 127
        &&& self.intervals_spec().len() < usize::MAX
        &&& forall|i: int| 0 <= i < self.intervals_spec().len() ==> self.intervals_spec()[i] <= 127
    }

    /// Creates a new `ScalePitchesIterator` with the given tonic and
    /// list of intervals.
    ///
    /// # Arguments
    ///
    /// * `tonic` - The pitch of the tonic (between 0 and 127)
    /// * `intervals` - The list of intervals of the scale (semitones
    ///   relative to the tonic, each at most 127)
    /// * `length` - The number of pitches to iterate over
    pub fn new(tonic: u8, intervals: Vec<u8>, length: usize) -> (it: Self)
        requires
            tonic <= 127,
            intervals@.len() < usize::MAX,
            forall|i: int| 0 <= i < intervals@.len() ==> intervals@[i] <= 127,
        ensures
            it.intervals_spec() == intervals@,
            it.iteration_spec() == 0,
            it.length_spec() == length,
            it.tonic_spec() == tonic,
            it.wf(),
    {
        Self { intervals, iteration: 0, length, tonic }
    }

    /// Issues the next pitch of the scale, or nothing once the
    /// iteration has ended: after `length` pitches have been issued, or
    /// as soon as the next pitch would leave the MIDI range.  Either
    /// way the end is for good — once `next` has returned nothing,
    /// every later call returns nothing too.  The first pitch is the
    /// tonic itself; after the last interval the tonic moves up an
    /// octave and the walk starts over.
    pub fn next(&mut self) -> (r: Option<u8>)
        requires
            old(self).wf(),
        ensures
            final (self).wf(),
            final (self).intervals_spec() == old(self).intervals_spec(),
            final (self).length_spec() == old(self).length_spec(),
            r is None ==> final (self).iteration_spec() >= final (self).length_spec(),
            old(self).iteration_spec() >= old(self).length_spec() ==> r == None::<u8>
                && *final (self) == *old(self),
            old(self).iteration_spec() < old(self).length_spec() ==> {
                let pos = old(self).iteration_spec() as int % (old(self).intervals_spec().len()
                    + 1) as int;
                if old(self).iteration_spec() == 0 {
                    r == Some(old(self).tonic_spec()) && final (self).tonic_spec() == old(
                        self,
                    ).tonic_spec() && final (self).iteration_spec() == old(self).iteration_spec()
                        + 1
                } else if pos == 0 {
                    if old(self).tonic_spec() + 12 > 127 {
                        r == None::<u8> && final (self).tonic_spec() == old(self).tonic_spec()
                            && final (self).iteration_spec() == final (self).length_spec()
                    } else {
                        final (self).tonic_spec() == old(self).tonic_spec() + 12 && r == Some(
                            final (self).tonic_spec(),
                        ) && final (self).iteration_spec() == old(self).iteration_spec() + 1
                    }
                } else {
                    final (self).tonic_spec() == old(self).tonic_spec() && (if old(
                        self,
                    ).tonic_spec() + old(self).intervals_spec()[pos - 1] > 127 {
                        r == None::<u8> && final (self).iteration_spec()
                            == final (self).length_spec()
                    } else {
                        r == Some(
                            (old(self).tonic_spec() + old(self).intervals_spec()[pos - 1]) as u8,
                        ) && final (self).iteration_spec() == old(self).iteration_spec() + 1
                    })
                }
            },
    {
        if self.iteration >= self.length {
            return None;
        }
        let pos = self.iteration % (self.intervals.len() + 1);
        self.iteration = self.iteration + 1;

        if self.iteration == 1 {
            return Some(self.tonic);
        }
        if pos == 0 {
            if 127 - 12 < self.tonic {
                self.iteration = self.length;
                return None;
            }
            self.tonic = self.tonic + 12;
            return Some(self.tonic);
        }
        let interval = self.intervals[pos - 1];
        if 127 - interval < self.tonic {
            self.iteration = self.length;
            return None;
        }
        Some(self.tonic + interval)
    }
}

} // verus!
