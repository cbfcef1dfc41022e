//! A compact bit-packing engine.
//!
//! Fields with fixed bit widths, not necessarily byte-aligned, are packed
//! into a minimal contiguous byte buffer. The crate provides:
//!
//! - the byte-level accessor engine ([`accessor`]) that reads and writes
//!   arbitrary bit ranges spanning one or more bytes;
//! - field specifiers ([`specifier`]) that translate between raw unsigned
//!   integers and logical values (plain integers, booleans, closed
//!   enumerations);
//! - packed record layouts ([`layout`]) that assign each field its bit
//!   offset and validate that the total width is a whole number of bytes;
//! - record instances ([`record`]) that own a zeroed backing buffer and
//!   expose per-field typed access.
//!
//! Bit 0 of the first field is the least-significant bit of byte 0; fields
//! pack contiguously in declaration order with no padding.

use vstd::prelude::*;

pub mod accessor;
pub mod bits;
pub mod checks;
pub mod entry;
pub mod layout;
pub mod record;
pub mod specifier;

verus! {

use vstd::arithmetic::power2::pow2;

/// The ways an operation of this crate can fail.
///
/// The first three variants arise once, when a record type is defined;
/// `OutOfRange` and `DecodeError` arise per call.
#[derive(Clone, Copy, Debug, PartialEq, Eq, Structural)]
pub enum BitfieldError {
    /// The total declared bit width of a record is not a multiple of 8.
    MisalignedLayout,
    /// An enumeration's variant count is not a power of two of at least 2.
    InvalidVariantCount,
    /// An enumeration variant's discriminant does not fit in the bits
    /// allotted to the field.
    DiscriminantOverflow,
    /// A read or write was asked for a bit range beyond the buffer.
    OutOfRange,
    /// A raw value read from an enumeration field matches no discriminant.
    DecodeError,
}

/// The byte whose low `width` bits are set and whose high bits are clear.
pub fn mask_from_width(width: u8) -> (r: u8)
    requires
        width <= 8,
    ensures
        r as nat == pow2(width as nat) - 1,
{
    proof {
        vstd::arithmetic::power2::lemma2_to64();
    }
    if width == 8 {
        255
    } else {
        proof {
            vstd::bits::lemma_u8_shl_is_mul(1u8, width);
        }
        (1u8 << width) - 1
    }
}

} // verus!
