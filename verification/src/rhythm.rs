//! Common rhythm values, in microbeats (a crotchet — a quarter note —
//! is one beat).  The ternary values are the nearest microbeat to the
//! exact fraction.

use vstd::prelude::*;

verus! {

// Binary rhythms
pub const DEMI_SEMIQUAVER: u64 = 125_000;

pub const DOTTED_DEMI_SEMIQUAVER: u64 = 182_500;

pub const SEMIQUAVER: u64 = 250_000;

pub const DOTTED_SEMIQUAVER: u64 = 375_000;

pub const QUAVER: u64 = 500_000;

pub const DOTTED_QUAVER: u64 = 750_000;

pub const CROTCHET: u64 = 1_000_000;

pub const DOTTED_CROTCHET: u64 = 1_500_000;

pub const MINIM: u64 = 2_000_000;

pub const DOTTED_MINIM: u64 = 3_000_000;

pub const SEMIBREVE: u64 = 4_000_000;

pub const BREVE: u64 = 8_000_000;

// Ternary rhythms
pub const TER_SEMIQUAVER: u64 = 166_667;

pub const TER_DOTTED_SEMIQUAVER: u64 = 250_000;

pub const TER_QUAVER: u64 = 333_333;

pub const TER_DOTTED_QUAVER: u64 = 500_000;

pub const TER_CROTCHET: u64 = 666_667;

pub const TER_DOTTED_CROTCHET: u64 = 1_000_000;

pub const TER_MINIM: u64 = 1_333_333;

pub const TER_DOTTED_MINIM: u64 = 2_000_000;

pub const TER_SEMIBREVE: u64 = 2_666_667;

pub const TER_DOTTED_SEMIBREVE: u64 = 4_000_000;

} // verus!
