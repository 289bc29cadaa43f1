//! Time units and the beat-to-tick conversion.
//!
//! Rhythm values, start beats and durations are measured in
//! *microbeats*: one millionth of a beat.  The compiler's output is
//! measured in *ticks*: 480 ticks per beat (per quarter note).  A span
//! of microbeats is converted to ticks once, by rounding half-up, and
//! tick positions are then accumulated with plain integer additions, so
//! no rounding error can build up across the entries of a phrase.

use vstd::prelude::*;

verus! {

/// Timing resolution of the compiled output: pulses (ticks) per quarter note.
pub const PULSES_PER_QUARTER_NOTE: u64 = 480;

/// Number of microbeats in one beat.  A rhythm value of `1_000_000`
/// microbeats is one beat (a quarter note, by convention).
pub const MICROBEATS_PER_BEAT: u64 = 1_000_000;

/// Upper bound on every rhythm value, start beat and duration, in
/// microbeats.  It is far beyond any musical use and exists only so
/// that every tick position the compiler computes provably fits in a
/// `u64`: the end of a trailing note is at most a phrase end plus one
/// rhythm value, hence at most twice this bound.
pub const MAX_TIMELINE_MICROBEATS: u64 = 0x4000_0000_0000_0000;

/// Number of ticks in a span of `micros` microbeats:
/// `micros * 480 / 1_000_000`, rounded half-up.
pub open spec fn whole_ticks(micros: int) -> int {
    (micros * PULSES_PER_QUARTER_NOTE + MICROBEATS_PER_BEAT / 2) / (MICROBEATS_PER_BEAT as int)
}

/// Rounding to ticks never moves a non-negative span past its length in
/// microbeats (one beat is worth far fewer ticks than microbeats).
pub proof fn lemma_whole_ticks_le(micros: int)
    requires
        micros >= 0,
    ensures
        0 <= whole_ticks(micros) <= micros,
{
    let n = micros * (PULSES_PER_QUARTER_NOTE as int) + (MICROBEATS_PER_BEAT / 2) as int;
    let d = MICROBEATS_PER_BEAT as int;
    vstd::arithmetic::div_mod::lemma_fundamental_div_mod(n, d);
    vstd::arithmetic::div_mod::lemma_mod_division_less_than_divisor(n, d);
}

/// Number of ticks in a span of `micros` microbeats.
pub fn to_ticks(micros: u64) -> (t: u64)
    ensures
        t == whole_ticks(micros as int),
        t <= micros,
{
    proof {
        lemma_whole_ticks_le(micros as int);
    }
    (((micros as u128) * (PULSES_PER_QUARTER_NOTE as u128) + (MICROBEATS_PER_BEAT / 2) as u128)
        / (MICROBEATS_PER_BEAT as u128)) as u64
}

} // verus!
