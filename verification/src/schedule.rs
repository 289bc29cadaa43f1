//! The timeline: scheduling, ordering and delta-encoding note events.
//!
//! Walking a part's phrases produces scheduled events (a note-on or
//! note-off due at an absolute tick), in the order the walk meets them.
//! The schedule is then sorted: by tick, and within one tick all
//! note-offs before all note-ons, events otherwise keeping the order
//! the walk gave them.  Finally the sorted schedule is delta-encoded:
//! the first event at a tick carries the distance from the previous
//! tick, later events of the same tick carry zero.

use vstd::prelude::*;

use crate::events::{EventKind, TimedEvent};
use crate::note::Note;
use crate::part::Part;
use crate::phrase::{lemma_sum_rhythms_prefix, sum_rhythms, Phrase, PhraseEntry};
use crate::ticks::{lemma_whole_ticks_le, to_ticks, whole_ticks, MAX_TIMELINE_MICROBEATS};

verus! {

/// One scheduled note event: a note-on (`on`) or note-off (`!on`) for
/// pitch `key`, due at the absolute tick `tick`.
#[derive(Debug, Clone, Copy, PartialEq, Eq, Structural)]
pub struct Sched {
    /// Absolute tick at which the event is due.
    pub tick: u64,
    /// True for a note-on, false for a note-off.
    pub on: bool,
    /// The pitch.
    pub key: u8,
    /// The velocity (0 for a note-off).
    pub vel: u8,
}

/// The note-on of `n`, due at `tick`.
pub open spec fn on_event(tick: int, n: Note) -> Sched {
    Sched { tick: tick as u64, on: true, key: n.pitch_spec(), vel: n.dynamic_spec() }
}

/// The note-off of `n` started at `tick`: due when the note's own
/// rhythm value has elapsed, however far the phrase cursor has moved on.
pub open spec fn off_event(tick: int, n: Note) -> Sched {
    Sched {
        tick: (tick + whole_ticks(n.rhythm_spec() as int)) as u64,
        on: false,
        key: n.pitch_spec(),
        vel: 0,
    }
}

/// The note-ons of a chord's notes, all due at `cursor`.
pub open spec fn chord_on_events(cursor: int, notes: Seq<Note>) -> Seq<Sched> {
    Seq::new(notes.len(), |i: int| on_event(cursor, notes[i]))
}

/// The note-offs of a chord's notes, each due when its own rhythm value
/// has elapsed from `cursor`.
pub open spec fn chord_off_events(cursor: int, notes: Seq<Note>) -> Seq<Sched> {
    Seq::new(notes.len(), |i: int| off_event(cursor, notes[i]))
}

/// The events one phrase entry schedules when the phrase cursor stands
/// at `cursor`: nothing for a rest; a note-on and a note-off for a
/// note; for a chord, a note-on for every note simultaneously, then for
/// each note its own note-off (a note whose rhythm exceeds the chord's
/// own span keeps sounding while the phrase moves on: a trailing note).
pub open spec fn entry_events(cursor: int, e: PhraseEntry) -> Seq<Sched> {
    match e {
        PhraseEntry::Rest(_) => Seq::empty(),
        PhraseEntry::Note(n) => seq![on_event(cursor, n), off_event(cursor, n)],
        PhraseEntry::Chord(c) => chord_on_events(cursor, c.notes_spec()) + chord_off_events(
            cursor,
            c.notes_spec(),
        ),
    }
}

/// How many ticks an entry advances the phrase cursor: its own rhythm
/// value in ticks.
pub open spec fn entry_advance(e: PhraseEntry) -> int {
    whole_ticks(e.rhythm_spec() as int)
}

/// Ticks the first entries of a phrase advance its cursor in all.
pub open spec fn advance_sum(entries: Seq<PhraseEntry>) -> int
    decreases entries.len(),
{
    if entries.len() == 0 {
        0
    } else {
        advance_sum(entries.drop_last()) + entry_advance(entries.last())
    }
}

/// The events of a phrase's entries walked in order from `cursor`,
/// each entry scheduled where the rhythm values before it put the
/// cursor.
pub open spec fn entries_events(cursor: int, entries: Seq<PhraseEntry>) -> Seq<Sched>
    decreases entries.len(),
{
    if entries.len() == 0 {
        Seq::empty()
    } else {
        entries_events(cursor, entries.drop_last()) + entry_events(
            cursor + advance_sum(entries.drop_last()),
            entries.last(),
        )
    }
}

/// The events of one phrase placed at `start` microbeats: its entries
/// walked from the tick that `start` rounds to.
pub open spec fn phrase_events(start: u64, phrase: Phrase) -> Seq<Sched> {
    entries_events(whole_ticks(start as int), phrase.entries_spec())
}

/// The events of a whole part: the events of all its phrases, in
/// insertion order.  Phrases may overlap freely; the later sort merges
/// their events by tick.
pub open spec fn part_events(phrases: Seq<(u64, Phrase)>) -> Seq<Sched>
    decreases phrases.len(),
{
    if phrases.len() == 0 {
        Seq::empty()
    } else {
        part_events(phrases.drop_last()) + phrase_events(
            phrases.last().0,
            phrases.last().1,
        )
    }
}

/// The order of the flattened schedule: by tick, and within one tick
/// every note-off before every note-on.
pub open spec fn ev_le(a: Sched, b: Sched) -> bool {
    a.tick < b.tick || (a.tick == b.tick && (!a.on || b.on))
}

/// A schedule sorted by `ev_le`.
pub open spec fn sorted_events(s: Seq<Sched>) -> bool {
    forall|i: int, j: int| 0 <= i < j < s.len() ==> ev_le(#[trigger] s[i], #[trigger] s[j])
}

/// `x` placed into an already sorted schedule `s`: after every event
/// that `ev_le`-precedes or equals it (so events sharing `x`'s place
/// keep the order the walk gave them).
pub open spec fn insert_sorted(s: Seq<Sched>, x: Sched) -> Seq<Sched>
    decreases s.len(),
{
    if s.len() == 0 {
        seq![x]
    } else if ev_le(s.last(), x) {
        s.push(x)
    } else {
        insert_sorted(s.drop_last(), x).push(s.last())
    }
}

/// The schedule sorted by `ev_le`, stably: events are inserted one
/// after the other, each after all its `ev_le`-equals.
pub open spec fn sort_events(s: Seq<Sched>) -> Seq<Sched>
    decreases s.len(),
{
    if s.len() == 0 {
        Seq::empty()
    } else {
        insert_sorted(sort_events(s.drop_last()), s.last())
    }
}

/// Inserting into a sorted schedule keeps it sorted, adds exactly the
/// inserted event, and grows the length by one.
pub proof fn lemma_insert_sorted_props(s: Seq<Sched>, x: Sched)
    requires
        sorted_events(s),
    ensures
        sorted_events(insert_sorted(s, x)),
        insert_sorted(s, x).to_multiset() == s.to_multiset().insert(x),
        insert_sorted(s, x).len() == s.len() + 1,
    decreases s.len(),
{
    broadcast use vstd::seq_lib::group_to_multiset_ensures;

    if s.len() == 0 {
        assert(seq![x].drop_last() =~= Seq::<Sched>::empty());
        assert(seq![x].to_multiset() =~= s.to_multiset().insert(x));
    } else if ev_le(s.last(), x) {
        let out = s.push(x);
        assert forall|i: int, j: int| 0 <= i < j < out.len() implies ev_le(
            #[trigger] out[i],
            #[trigger] out[j],
        ) by {
            if j == out.len() - 1 {
                assert(out[i] == s[i]);
                if i < s.len() - 1 {
                    assert(ev_le(s[i], s.last()));
                }
            }
        }
    } else {
        let dl = s.drop_last();
        assert(sorted_events(dl)) by {
            assert forall|i: int, j: int| 0 <= i < j < dl.len() implies ev_le(
                #[trigger] dl[i],
                #[trigger] dl[j],
            ) by {
                assert(dl[i] == s[i] && dl[j] == s[j]);
            }
        }
        lemma_insert_sorted_props(dl, x);
        let ins = insert_sorted(dl, x);
        let out = ins.push(s.last());
        assert(out.to_multiset() =~= s.to_multiset().insert(x)) by {
            assert(ins.to_multiset() == dl.to_multiset().insert(x));
            assert(dl.push(s.last()) =~= s);
        }
        // every event of `ins` is one of `dl` or is `x`; either way it
        // may stand before `s.last()`
        assert forall|i: int, j: int| 0 <= i < j < out.len() implies ev_le(
            #[trigger] out[i],
            #[trigger] out[j],
        ) by {
            if j == out.len() - 1 {
                assert(ins.to_multiset().count(out[i]) > 0);
                assert(ins.to_multiset() == dl.to_multiset().insert(x));
                if out[i] != x {
                    assert(dl.to_multiset().count(out[i]) > 0);
                    assert(dl.contains(out[i]));
                    let w = choose|w: int| 0 <= w < dl.len() && dl[w] == out[i];
                    assert(ev_le(s[w], s.last()));
                }
            }
        }
    }
}

/// Sorting gives a sorted schedule holding exactly the scheduled
/// events: the flattening reorders the walk's events and loses none.
/// Within one tick, it puts every note-off before every note-on.
pub proof fn lemma_sort_events_props(s: Seq<Sched>)
    ensures
        sorted_events(sort_events(s)),
        sort_events(s).to_multiset() == s.to_multiset(),
        sort_events(s).len() == s.len(),
    decreases s.len(),
{
    broadcast use vstd::seq_lib::group_to_multiset_ensures;

    if s.len() == 0 {
    } else {
        let dl = s.drop_last();
        lemma_sort_events_props(dl);
        lemma_insert_sorted_props(sort_events(dl), s.last());
        assert(dl.push(s.last()) =~= s);
        assert(sort_events(s).to_multiset() =~= s.to_multiset());
    }
}

/// Where the sorted insertion puts `x`: at index `k`, when everything
/// before `k` precedes or equals `x` and nothing from `k` on does.
pub proof fn lemma_insert_sorted_at(s: Seq<Sched>, x: Sched, k: int)
    requires
        0 <= k <= s.len(),
        forall|i: int| k <= i < s.len() ==> !ev_le(#[trigger] s[i], x),
        k > 0 ==> ev_le(s[k - 1], x),
    ensures
        insert_sorted(s, x) == s.insert(k, x),
    decreases s.len(),
{
    if k == s.len() {
        if s.len() == 0 {
            assert(insert_sorted(s, x) =~= s.insert(k, x));
        } else {
            assert(ev_le(s.last(), x));
            assert(s.push(x) =~= s.insert(k, x));
        }
    } else {
        assert(!ev_le(s[s.len() - 1], x));
        let dl = s.drop_last();
        lemma_insert_sorted_at(dl, x, k);
        assert(insert_sorted(dl, x).push(s.last()) =~= s.insert(k, x));
    }
}

/// The message a scheduled event becomes on a channel.
pub open spec fn note_message(e: Sched, channel: u8) -> EventKind {
    if e.on {
        EventKind::NoteOn { channel, key: e.key, vel: e.vel }
    } else {
        EventKind::NoteOff { channel, key: e.key, vel: e.vel }
    }
}

/// The delta-encoding of a sorted schedule: event `i` carries the ticks
/// between it and its predecessor (its own tick for the first event),
/// so every event after the first at one tick carries zero.
pub open spec fn delta_encoded(s: Seq<Sched>, channel: u8) -> Seq<TimedEvent> {
    Seq::new(
        s.len(),
        |i: int|
            TimedEvent {
                delta: (s[i].tick - (if i == 0 {
                    0int
                } else {
                    s[i - 1].tick as int
                })) as u64,
                kind: note_message(s[i], channel),
            },
    )
}

/// The absolute tick of event `i` of a delta-encoded track section:
/// the sum of the deltas up to and including `i`.
pub open spec fn absolute_tick(t: Seq<TimedEvent>, i: int) -> int
    decreases i,
{
    if i <= 0 {
        t[0].delta as int
    } else {
        absolute_tick(t, i - 1) + t[i].delta
    }
}

/// Delta-encoding is faithful: summing the deltas of the encoded
/// section recovers each event's absolute tick.
pub proof fn lemma_delta_encoded_faithful(s: Seq<Sched>, channel: u8, i: int)
    requires
        sorted_events(s),
        0 <= i < s.len(),
    ensures
        absolute_tick(delta_encoded(s, channel), i) == s[i].tick,
    decreases i,
{
    if i > 0 {
        lemma_delta_encoded_faithful(s, channel, i - 1);
        assert(ev_le(s[i - 1], s[i]));
    }
}

/// All note-offs due at a tick stand before all note-ons due at that
/// tick in the flattened, delta-encoded track section.
pub proof fn lemma_offs_before_ons(s: Seq<Sched>, channel: u8, i: int, j: int)
    requires
        sorted_events(s),
        0 <= i < j < s.len(),
        s[i].tick == s[j].tick,
    ensures
        delta_encoded(s, channel)[i].kind is NoteOn ==> delta_encoded(s, channel)[j].kind
            is NoteOn,
{
    assert(ev_le(s[i], s[j]));
}

/// Entries that are all rests schedule no event at all.
pub open spec fn all_rests(entries: Seq<PhraseEntry>) -> bool {
    forall|i: int| 0 <= i < entries.len() ==> (#[trigger] entries[i]) is Rest
}

/// A phrase of rests alone contributes nothing to the schedule.
pub proof fn lemma_rest_entries_no_events(cursor: int, entries: Seq<PhraseEntry>)
    requires
        all_rests(entries),
    ensures
        entries_events(cursor, entries).len() == 0,
    decreases entries.len(),
{
    if entries.len() > 0 {
        let dl = entries.drop_last();
        assert(all_rests(dl)) by {
            assert(forall|i: int| 0 <= i < dl.len() ==> dl[i] == entries[i]);
        }
        lemma_rest_entries_no_events(cursor, dl);
        assert(entries.last() is Rest);
    }
}

/// A part whose phrases hold nothing but rests schedules no event, so
/// no track is emitted for it.
pub proof fn lemma_rest_part_no_events(phrases: Seq<(u64, Phrase)>)
    requires
        forall|i: int| 0 <= i < phrases.len() ==> all_rests((#[trigger] phrases[i]).1.entries_spec()),
    ensures
        part_events(phrases).len() == 0,
    decreases phrases.len(),
{
    if phrases.len() > 0 {
        let dl = phrases.drop_last();
        assert(forall|i: int| 0 <= i < dl.len() ==> dl[i] == phrases[i]);
        lemma_rest_part_no_events(dl);
        lemma_rest_entries_no_events(
            whole_ticks(phrases.last().0 as int),
            phrases.last().1.entries_spec(),
        );
    }
}

/// An entry advances the cursor by no more ticks than its rhythm value
/// holds microbeats.
pub proof fn lemma_advance_sum_le(entries: Seq<PhraseEntry>)
    ensures
        0 <= advance_sum(entries) <= sum_rhythms(entries),
    decreases entries.len(),
{
    if entries.len() > 0 {
        lemma_advance_sum_le(entries.drop_last());
        lemma_whole_ticks_le(entries.last().rhythm_spec() as int);
    }
}

/// Walks the phrases of `part` and collects every scheduled note
/// event, in walking order.
fn gen_part_events(part: &Part) -> (evs: Vec<Sched>)
    requires
        part.wf(),
    ensures
        evs@ == part_events(part.phrases_spec()),
{
    let mut evs: Vec<Sched> = Vec::new();
    let phrases = part.phrases();
    let mut pi: usize = 0;
    while pi < phrases.len()
        invariant
            part.wf(),
            phrases@ == part.phrases_spec(),
            0 <= pi <= phrases@.len(),
            evs@ == part_events(phrases@.take(pi as int)),
        decreases phrases@.len() - pi,
    {
        let start: u64 = phrases[pi].0;
        let entries: &Vec<PhraseEntry> = phrases[pi].1.entries();
        let ghost entsp = entries@;
        let mut cursor: u64 = to_ticks(start);
        let ghost c0: int = cursor as int;
        let ghost phrase_base = evs@;
        proof {
            lemma_whole_ticks_le(start as int);
            assert(phrases@[pi as int].1.wf());
            assert(start + sum_rhythms(entsp) <= MAX_TIMELINE_MICROBEATS);
            assert(advance_sum(entsp.take(0)) == 0);
            assert(entries_events(c0, entsp.take(0)).len() == 0);
            assert(evs@ =~= phrase_base + entries_events(c0, entsp.take(0)));
        }
        let mut j: usize = 0;
        while j < entries.len()
            invariant
                0 <= j <= entsp.len(),
                entries@ == entsp,
                forall|k: int| 0 <= k < entsp.len() ==> (#[trigger] entsp[k]).wf(),
                c0 == whole_ticks(start as int),
                0 <= c0 <= start,
                start + sum_rhythms(entsp) <= MAX_TIMELINE_MICROBEATS,
                cursor == c0 + advance_sum(entsp.take(j as int)),
                cursor <= start + sum_rhythms(entsp.take(j as int)),
                evs@ == phrase_base + entries_events(c0, entsp.take(j as int)),
            decreases entsp.len() - j,
        {
            proof {
                assert(entsp.take(j + 1).drop_last() =~= entsp.take(j as int));
                assert(entsp.take(j + 1).last() == entsp[j as int]);
                lemma_advance_sum_le(entsp.take(j as int));
                lemma_advance_sum_le(entsp.take(j + 1));
                lemma_sum_rhythms_prefix(entsp, j + 1);
                lemma_whole_ticks_le(entsp[j as int].rhythm_spec() as int);
            }
            let ghost cur_int: int = cursor as int;
            let ghost entry_base = evs@;
            let e = &entries[j];
            match e {
                PhraseEntry::Rest(_) => {
                    proof {
                        assert(entry_events(cur_int, entsp[j as int]) =~= Seq::<Sched>::empty());
                        assert(evs@ =~= entry_base + entry_events(cur_int, entsp[j as int]));
                    }
                },
                PhraseEntry::Note(n) => {
                    let off_tick = cursor + to_ticks(n.rhythm());
                    evs.push(Sched { tick: cursor, on: true, key: n.pitch(), vel: n.dynamic() });
                    evs.push(Sched { tick: off_tick, on: false, key: n.pitch(), vel: 0 });
                    proof {
                        assert(evs@ =~= entry_base + entry_events(cur_int, entsp[j as int]));
                    }
                },
                PhraseEntry::Chord(c) => {
                    let notes: &Vec<Note> = c.notes();
                    let ghost nsp = notes@;
                    let mut k: usize = 0;
                    while k < notes.len()
                        invariant
                            0 <= k <= nsp.len(),
                            notes@ == nsp,
                            evs@ == entry_base + chord_on_events(cur_int, nsp).take(k as int),
                            cursor == cur_int,
                        decreases nsp.len() - k,
                    {
                        let n = notes[k];
                        evs.push(
                            Sched { tick: cursor, on: true, key: n.pitch(), vel: n.dynamic() },
                        );
                        proof {
                            assert(evs@ =~= entry_base + chord_on_events(cur_int, nsp).take(
                                k + 1,
                            ));
                        }
                        k = k + 1;
                    }
                    let ghost ons_done = evs@;
                    let mut k2: usize = 0;
                    while k2 < notes.len()
                        invariant
                            0 <= k2 <= nsp.len(),
                            notes@ == nsp,
                            forall|w: int| 0 <= w < nsp.len() ==> (#[trigger] nsp[w]).wf(),
                            cursor == cur_int,
                            0 <= cur_int <= MAX_TIMELINE_MICROBEATS,
                            evs@ == ons_done + chord_off_events(cur_int, nsp).take(k2 as int),
                        decreases nsp.len() - k2,
                    {
                        let n = notes[k2];
                        proof {
                            assert(nsp[k2 as int].wf());
                            lemma_whole_ticks_le(n.rhythm_spec() as int);
                        }
                        let off_tick = cursor + to_ticks(n.rhythm());
                        evs.push(Sched { tick: off_tick, on: false, key: n.pitch(), vel: 0 });
                        proof {
                            assert(evs@ =~= ons_done + chord_off_events(cur_int, nsp).take(
                                k2 + 1,
                            ));
                        }
                        k2 = k2 + 1;
                    }
                    proof {
                        assert(chord_on_events(cur_int, nsp).take(nsp.len() as int)
                            =~= chord_on_events(cur_int, nsp));
                        assert(chord_off_events(cur_int, nsp).take(nsp.len() as int)
                            =~= chord_off_events(cur_int, nsp));
                        assert(evs@ =~= entry_base + entry_events(cur_int, entsp[j as int]));
                    }
                },
            }
            let adv = to_ticks(entries[j].rhythm());
            cursor = cursor + adv;
            proof {
                assert(evs@ =~= phrase_base + entries_events(c0, entsp.take(j + 1)));
            }
            j = j + 1;
        }
        proof {
            assert(entsp.take(entsp.len() as int) =~= entsp);
            assert(phrases@.take(pi + 1).drop_last() =~= phrases@.take(pi as int));
            assert(phrases@.take(pi + 1).last() == phrases@[pi as int]);
            assert(evs@ =~= part_events(phrases@.take(pi + 1)));
        }
        pi = pi + 1;
    }
    proof {
        assert(phrases@.take(phrases@.len() as int) =~= phrases@);
    }
    evs
}

/// The flattening order, as runnable code.
fn ev_le_exec(a: Sched, b: Sched) -> (r: bool)
    ensures
        r == ev_le(a, b),
{
    a.tick < b.tick || (a.tick == b.tick && (!a.on || b.on))
}

/// Sorts a walked schedule stably by tick, note-offs first within one
/// tick.
fn sort_schedule(evs: &Vec<Sched>) -> (out: Vec<Sched>)
    ensures
        out@ == sort_events(evs@),
        sorted_events(out@),
        out@.len() == evs@.len(),
{
    let mut out: Vec<Sched> = Vec::new();
    let mut i: usize = 0;
    while i < evs.len()
        invariant
            0 <= i <= evs@.len(),
            out@ == sort_events(evs@.take(i as int)),
            sorted_events(out@),
            out@.len() == i,
        decreases evs@.len() - i,
    {
        let x = evs[i];
        let mut k: usize = out.len();
        while k > 0 && !ev_le_exec(out[k - 1], x)
            invariant
                0 <= k <= out@.len(),
                forall|w: int| k <= w < out@.len() ==> !ev_le(#[trigger] out@[w], x),
            decreases k,
        {
            k = k - 1;
        }
        proof {
            lemma_insert_sorted_at(out@, x, k as int);
            lemma_insert_sorted_props(out@, x);
            assert(evs@.take(i + 1).drop_last() =~= evs@.take(i as int));
            assert(evs@.take(i + 1).last() == evs@[i as int]);
        }
        out.insert(k, x);
        i = i + 1;
    }
    proof {
        assert(evs@.take(evs@.len() as int) =~= evs@);
    }
    out
}

/// Delta-encodes a sorted schedule for `channel`: each event carries
/// the ticks since the one before it.
fn delta_encode(evs: &Vec<Sched>, channel: u8) -> (out: Vec<TimedEvent>)
    requires
        sorted_events(evs@),
    ensures
        out@ == delta_encoded(evs@, channel),
{
    let mut out: Vec<TimedEvent> = Vec::new();
    let mut prev: u64 = 0;
    let mut i: usize = 0;
    while i < evs.len()
        invariant
            sorted_events(evs@),
            0 <= i <= evs@.len(),
            out@ == delta_encoded(evs@, channel).take(i as int),
            prev == (if i == 0 {
                0int
            } else {
                evs@[i - 1].tick as int
            }),
        decreases evs@.len() - i,
    {
        let e = evs[i];
        proof {
            if i > 0 {
                assert(ev_le(evs@[i - 1], evs@[i as int]));
            }
        }
        let delta = e.tick - prev;
        let kind = if e.on {
            EventKind::NoteOn { channel, key: e.key, vel: e.vel }
        } else {
            EventKind::NoteOff { channel, key: e.key, vel: e.vel }
        };
        out.push(TimedEvent { delta, kind });
        proof {
            assert(out@ =~= delta_encoded(evs@, channel).take(i + 1));
        }
        prev = e.tick;
        i = i + 1;
    }
    proof {
        assert(delta_encoded(evs@, channel).take(evs@.len() as int) =~= delta_encoded(
            evs@,
            channel,
        ));
    }
    out
}

/// Compiles one part: walks its phrases, sorts the schedule, and
/// delta-encodes it for `channel`.  Returns no track section when the
/// part schedules nothing (a part of rests alone).
pub fn compile_part(part: &Part, channel: u8) -> (r: Option<Vec<TimedEvent>>)
    requires
        part.wf(),
    ensures
        part_events(part.phrases_spec()).len() == 0 <==> r is None,
        r matches Some(sec) ==> sec@ == delta_encoded(
            sort_events(part_events(part.phrases_spec())),
            channel,
        ),
{
    let evs = gen_part_events(part);
    proof {
        lemma_sort_events_props(evs@);
    }
    if evs.len() == 0 {
        return None;
    }
    let sorted = sort_schedule(&evs);
    Some(delta_encode(&sorted, channel))
}

} // verus!
