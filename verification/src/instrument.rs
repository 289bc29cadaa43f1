//! The instrument assigned to a part.
//!
//! The General MIDI instrument table is an external concern; the
//! compiler needs only the 7-bit program number to emit, or the absence
//! of one.

use vstd::prelude::*;

verus! {

/// The instrument playing a `Part`: either none (no program-change
/// event is emitted for the part) or a MIDI program number.
#[derive(Debug, Clone, Copy, PartialEq, Eq, Structural)]
pub enum Instrument {
    /// No instrument: the part's tracks carry no program-change event.
    NoProgram,
    /// A 7-bit MIDI program number selecting the instrument's voice.
    Program(u8),
}

impl Instrument {
    /// Validity: a program number is a 7-bit value.
    pub open spec fn wf(&self) -> bool {
        match self {
            Instrument::NoProgram => true,
            Instrument::Program(p) => p <= 127,
        }
    }
}

} // verus!
