//! Marker types that encode "total bit width is a multiple of eight" in
//! the type system.
//!
//! A record type computes its total width modulo 8, maps the remainder to
//! one of the eight marker structs through [`NumToGeneric`], and calls
//! [`width_check`]. Only [`ZeroMod8`] implements
//! [`TotalSizeIsMultipleOfEightsBits`], so the call compiles exactly when
//! the record's width is a whole number of bytes.

use vstd::prelude::*;

verus! {

/// Implemented only by the remainder marker of a byte-aligned width.
pub trait TotalSizeIsMultipleOfEightsBits {}

/// Total width is 0 modulo 8.
pub struct ZeroMod8 {}

/// Total width is 1 modulo 8.
pub struct OneMod8 {}

/// Total width is 2 modulo 8.
pub struct TwoMod8 {}

/// Total width is 3 modulo 8.
pub struct ThreeMod8 {}

/// Total width is 4 modulo 8.
pub struct FourMod8 {}

/// Total width is 5 modulo 8.
pub struct FiveMod8 {}

/// Total width is 6 modulo 8.
pub struct SixMod8 {}

/// Total width is 7 modulo 8.
pub struct SevenMod8 {}

/// Maps a remainder, carried as a const generic, to its marker struct.
pub trait NumToGeneric {
    type GENERIC;
}

/// Carries a width remainder as a const generic.
pub struct NumDummy<const TOTAL_WIDTH_IN_BYTES: usize> {}

impl NumToGeneric for NumDummy<0> {
    type GENERIC = ZeroMod8;
}

impl NumToGeneric for NumDummy<1> {
    type GENERIC = OneMod8;
}

impl NumToGeneric for NumDummy<2> {
    type GENERIC = TwoMod8;
}

impl NumToGeneric for NumDummy<3> {
    type GENERIC = ThreeMod8;
}

impl NumToGeneric for NumDummy<4> {
    type GENERIC = FourMod8;
}

impl NumToGeneric for NumDummy<5> {
    type GENERIC = FiveMod8;
}

impl NumToGeneric for NumDummy<6> {
    type GENERIC = SixMod8;
}

impl NumToGeneric for NumDummy<7> {
    type GENERIC = SevenMod8;
}

impl TotalSizeIsMultipleOfEightsBits for ZeroMod8 {
}

/// Compiles only when `T` marks a byte-aligned total width.
pub fn width_check<T: TotalSizeIsMultipleOfEightsBits>() {
}

} // verus!
