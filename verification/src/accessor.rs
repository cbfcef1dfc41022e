//! The byte-level accessor engine.
//!
//! [`read_bits`] and [`write_bits`] move a value of up to 64 bits between a
//! `u64` and an arbitrary bit range of a byte buffer, one bit at a time.
//! Bit `pos` of the buffer is bit `pos % 8` of byte `pos / 8`. Writing masks
//! the value to the range's width; bits outside the range are never touched.
//! The checked variants reject an out-of-range request with
//! [`BitfieldError::OutOfRange`] instead of demanding it of the caller.

use vstd::prelude::*;

verus! {

use vstd::arithmetic::power2::pow2;
use vstd::pervasive::VecAdditionalExecFns;
use crate::BitfieldError;
use crate::bits::lemma_pos_in_range;
use crate::bits::lemma_read_snoc;
use crate::bits::lemma_u8_bit_test;
use crate::bits::lemma_u64_nth_bit;
use crate::bits::lemma_u64_set_high_bit;
use crate::bits::lemma_write_snoc;
use crate::bits::nth_bit;
use crate::bits::spec_read_bits;
use crate::bits::spec_set_bit;
use crate::bits::spec_write_bits;

/// Reads the `bit_width` bits starting at bit `bit_offset` of the buffer,
/// least-significant first.
pub fn read_bits(buffer: &Vec<u8>, bit_offset: usize, bit_width: usize) -> (r: u64)
    requires
        bit_width <= 64,
        bit_offset + bit_width <= usize::MAX,
        bit_offset + bit_width <= buffer@.len() * 8,
    ensures
        r as nat == spec_read_bits(buffer@, bit_offset as nat, bit_width as nat),
        (r as nat) < pow2(bit_width as nat),
{
    let mut val: u64 = 0;
    let mut i: usize = 0;
    proof {
        vstd::arithmetic::power2::lemma2_to64();
    }
    while i < bit_width
        invariant
            i <= bit_width,
            bit_width <= 64,
            bit_offset + bit_width <= usize::MAX,
            bit_offset + bit_width <= buffer@.len() * 8,
            val as nat == spec_read_bits(buffer@, bit_offset as nat, i as nat),
            (val as nat) < pow2(i as nat),
        decreases bit_width - i,
    {
        let pos = bit_offset + i;
        let byte_index = pos / 8;
        let bit_in_byte = pos % 8;
        proof {
            lemma_pos_in_range(buffer@.len(), pos as nat);
        }
        let byte = buffer[byte_index];
        let mask = 1u8 << (bit_in_byte as u8);
        proof {
            lemma_u8_bit_test(byte, bit_in_byte as u8);
            lemma_read_snoc(buffer@, bit_offset as nat, i as nat);
            vstd::arithmetic::power2::lemma_pow2_unfold((i + 1) as nat);
        }
        if byte & mask == mask {
            proof {
                lemma_u64_set_high_bit(val, i as u64);
            }
            val = val | (1u64 << (i as u64));
        }
        i = i + 1;
    }
    val
}

/// Writes the low `bit_width` bits of `value` to the bits starting at bit
/// `bit_offset` of the buffer; every other bit of the buffer is unchanged.
/// Bits of `value` above `bit_width` are ignored.
pub fn write_bits(buffer: &mut Vec<u8>, bit_offset: usize, bit_width: usize, value: u64)
    requires
        bit_width <= 64,
        bit_offset + bit_width <= usize::MAX,
        bit_offset + bit_width <= old(buffer)@.len() * 8,
    ensures
        final(buffer)@ == spec_write_bits(
            old(buffer)@,
            bit_offset as nat,
            bit_width as nat,
            value as nat,
        ),
        final(buffer)@.len() == old(buffer)@.len(),
{
    let ghost orig: Seq<u8> = buffer@;
    let mut i: usize = 0;
    while i < bit_width
        invariant
            i <= bit_width,
            bit_width <= 64,
            bit_offset + bit_width <= usize::MAX,
            bit_offset + bit_width <= orig.len() * 8,
            buffer@.len() == orig.len(),
            buffer@ == spec_write_bits(orig, bit_offset as nat, i as nat, value as nat),
        decreases bit_width - i,
    {
        let pos = bit_offset + i;
        let byte_index = pos / 8;
        let bit_in_byte = pos % 8;
        proof {
            lemma_pos_in_range(buffer@.len(), pos as nat);
        }
        let ghost prev: Seq<u8> = buffer@;
        let byte = buffer[byte_index];
        let mask = 1u8 << (bit_in_byte as u8);
        let bit = 1u64 << (i as u64);
        let new_byte = if value & bit == bit {
            byte | mask
        } else {
            byte & !mask
        };
        buffer.set(byte_index, new_byte);
        proof {
            lemma_u64_nth_bit(value, i as u64);
            assert(buffer@ == spec_set_bit(prev, pos as nat, nth_bit(value as nat, i as nat)));
            lemma_write_snoc(orig, bit_offset as nat, i as nat, value as nat);
        }
        i = i + 1;
    }
}

/// True when a request for `bit_width` bits at `bit_offset` lies within a
/// buffer of `len` bytes and within the machine's address arithmetic.
pub open spec fn range_in_bounds(len: nat, bit_offset: nat, bit_width: nat) -> bool {
    bit_width <= 64 && bit_offset + bit_width <= usize::MAX && bit_offset + bit_width <= len * 8
}

/// [`read_bits`], with an out-of-range request rejected as
/// [`BitfieldError::OutOfRange`] instead of being ruled out by contract.
pub fn try_read_bits(buffer: &Vec<u8>, bit_offset: usize, bit_width: usize) -> (r: Result<
    u64,
    BitfieldError,
>)
    ensures
        match r {
            Ok(v) => range_in_bounds(buffer@.len(), bit_offset as nat, bit_width as nat) && v as nat
                == spec_read_bits(buffer@, bit_offset as nat, bit_width as nat),
            Err(e) => e == BitfieldError::OutOfRange && !range_in_bounds(
                buffer@.len(),
                bit_offset as nat,
                bit_width as nat,
            ),
        },
{
    if bit_width > 64 {
        Err(BitfieldError::OutOfRange)
    } else if bit_offset > usize::MAX - bit_width {
        Err(BitfieldError::OutOfRange)
    } else if (bit_offset as u128) + (bit_width as u128) > (buffer.len() as u128) * 8 {
        Err(BitfieldError::OutOfRange)
    } else {
        Ok(read_bits(buffer, bit_offset, bit_width))
    }
}

/// [`write_bits`], with an out-of-range request rejected as
/// [`BitfieldError::OutOfRange`]; a rejected write leaves the buffer
/// untouched.
pub fn try_write_bits(buffer: &mut Vec<u8>, bit_offset: usize, bit_width: usize, value: u64) -> (r:
    Result<(), BitfieldError>)
    ensures
        match r {
            Ok(()) => range_in_bounds(old(buffer)@.len(), bit_offset as nat, bit_width as nat)
                && final(buffer)@ == spec_write_bits(
                old(buffer)@,
                bit_offset as nat,
                bit_width as nat,
                value as nat,
            ),
            Err(e) => e == BitfieldError::OutOfRange && !range_in_bounds(
                old(buffer)@.len(),
                bit_offset as nat,
                bit_width as nat,
            ) && final(buffer)@ == old(buffer)@,
        },
{
    if bit_width > 64 {
        Err(BitfieldError::OutOfRange)
    } else if bit_offset > usize::MAX - bit_width {
        Err(BitfieldError::OutOfRange)
    } else if (bit_offset as u128) + (bit_width as u128) > (buffer.len() as u128) * 8 {
        Err(BitfieldError::OutOfRange)
    } else {
        write_bits(buffer, bit_offset, bit_width, value);
        Ok(())
    }
}

} // verus!
