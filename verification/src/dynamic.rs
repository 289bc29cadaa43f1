//! Common dynamic (velocity) values, from silence to fortississimo.

use vstd::prelude::*;

verus! {

pub const SILENT: u8 = 0;

pub const PPP: u8 = 10;

pub const PP: u8 = 25;

pub const P: u8 = 50;

pub const MP: u8 = 60;

pub const MF: u8 = 70;

pub const F: u8 = 85;

pub const FF: u8 = 100;

pub const FFF: u8 = 120;

} // verus!
