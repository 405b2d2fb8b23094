//! The colours of the game, as `0xAARRGGBB`.
use vstd::prelude::*;

verus! {

pub const FOREGROUND: u32 = 0xFFEE_EEEE;

pub const RED: u32 = 0xFFFF_3333;

pub const GREEN: u32 = 0xFF33_FF33;

pub const STAR_BRIGHT: u32 = 0xFFDD_DDDD;

pub const STAR_DIM: u32 = 0xFF77_7777;

} // verus!
