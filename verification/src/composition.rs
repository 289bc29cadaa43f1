//! Utilities that simplify music composition, for example by
//! streamlining the creation of common musical structures using music
//! theory.

pub mod scale;
