//! An I/O-APIC redirection-table entry: a worked, statically typed
//! packed record.
//!
//! The entry packs four fields into a single byte, in declaration order:
//! `acknowledged` (1 bit), `trigger_mode` (1 bit), `delivery_mode`
//! (3 bits) and `reserved` (3 bits). The typed getters and setters
//! compose the accessor engine with each field's [`Specifier`].

use vstd::prelude::*;

verus! {

use vstd::arithmetic::power2::pow2;
use crate::BitfieldError;
use crate::accessor::read_bits;
use crate::accessor::write_bits;
use crate::bits::spec_read_bits;
use crate::bits::spec_write_bits;
use crate::checks::ZeroMod8;
use crate::checks::width_check;
use crate::specifier::Specifier;

/// How an interrupt is signalled.
#[derive(Clone, Copy, Debug, PartialEq, Eq, Structural)]
pub enum TriggerMode {
    Edge,
    Level,
}

impl Specifier for TriggerMode {
    type UTYPE = TriggerMode;

    open spec fn spec_bits() -> nat {
        1
    }

    open spec fn spec_to_raw(v: TriggerMode) -> u64 {
        match v {
            TriggerMode::Edge => 0,
            TriggerMode::Level => 1,
        }
    }

    open spec fn spec_from_raw(raw: u64) -> Option<TriggerMode> {
        if raw == 0 {
            Some(TriggerMode::Edge)
        } else if raw == 1 {
            Some(TriggerMode::Level)
        } else {
            None
        }
    }

    fn bits() -> usize {
        1
    }

    fn to_raw(v: TriggerMode) -> u64 {
        proof {
            assert(pow2(1) == 2) by {
                vstd::arithmetic::power2::lemma2_to64();
            }
        }
        match v {
            TriggerMode::Edge => 0,
            TriggerMode::Level => 1,
        }
    }

    fn from_raw(raw: u64) -> Result<TriggerMode, BitfieldError> {
        if raw == 0 {
            Ok(TriggerMode::Edge)
        } else if raw == 1 {
            Ok(TriggerMode::Level)
        } else {
            Err(BitfieldError::DecodeError)
        }
    }
}

/// How an interrupt is delivered.
#[derive(Clone, Copy, Debug, PartialEq, Eq, Structural)]
pub enum DeliveryMode {
    Fixed,
    Lowest,
    SMI,
    RemoteRead,
    NMI,
    Init,
    Startup,
    External,
}

impl Specifier for DeliveryMode {
    type UTYPE = DeliveryMode;

    open spec fn spec_bits() -> nat {
        3
    }

    open spec fn spec_to_raw(v: DeliveryMode) -> u64 {
        match v {
            DeliveryMode::Fixed => 0,
            DeliveryMode::Lowest => 1,
            DeliveryMode::SMI => 2,
            DeliveryMode::RemoteRead => 3,
            DeliveryMode::NMI => 4,
            DeliveryMode::Init => 5,
            DeliveryMode::Startup => 6,
            DeliveryMode::External => 7,
        }
    }

    open spec fn spec_from_raw(raw: u64) -> Option<DeliveryMode> {
        if raw == 0 {
            Some(DeliveryMode::Fixed)
        } else if raw == 1 {
            Some(DeliveryMode::Lowest)
        } else if raw == 2 {
            Some(DeliveryMode::SMI)
        } else if raw == 3 {
            Some(DeliveryMode::RemoteRead)
        } else if raw == 4 {
            Some(DeliveryMode::NMI)
        } else if raw == 5 {
            Some(DeliveryMode::Init)
        } else if raw == 6 {
            Some(DeliveryMode::Startup)
        } else if raw == 7 {
            Some(DeliveryMode::External)
        } else {
            None
        }
    }

    fn bits() -> usize {
        3
    }

    fn to_raw(v: DeliveryMode) -> u64 {
        proof {
            assert(pow2(3) == 8) by {
                vstd::arithmetic::power2::lemma2_to64();
            }
        }
        match v {
            DeliveryMode::Fixed => 0,
            DeliveryMode::Lowest => 1,
            DeliveryMode::SMI => 2,
            DeliveryMode::RemoteRead => 3,
            DeliveryMode::NMI => 4,
            DeliveryMode::Init => 5,
            DeliveryMode::Startup => 6,
            DeliveryMode::External => 7,
        }
    }

    fn from_raw(raw: u64) -> Result<DeliveryMode, BitfieldError> {
        if raw == 0 {
            Ok(DeliveryMode::Fixed)
        } else if raw == 1 {
            Ok(DeliveryMode::Lowest)
        } else if raw == 2 {
            Ok(DeliveryMode::SMI)
        } else if raw == 3 {
            Ok(DeliveryMode::RemoteRead)
        } else if raw == 4 {
            Ok(DeliveryMode::NMI)
        } else if raw == 5 {
            Ok(DeliveryMode::Init)
        } else if raw == 6 {
            Ok(DeliveryMode::Startup)
        } else if raw == 7 {
            Ok(DeliveryMode::External)
        } else {
            Err(BitfieldError::DecodeError)
        }
    }
}

/// Bit offset of the `acknowledged` field.
pub const OFFSET_ACKNOWLEDGED: usize = 0;

/// Bit offset of the `trigger_mode` field.
pub const OFFSET_TRIGGER_MODE: usize = 1;

/// Bit offset of the `delivery_mode` field.
pub const OFFSET_DELIVERY_MODE: usize = 2;

/// Bit offset of the `reserved` field.
pub const OFFSET_RESERVED: usize = 5;

/// Width in bits of the `reserved` field.
pub const RESERVED_BITS: usize = 3;

/// A packed redirection-table entry: one byte holding `acknowledged`
/// (bit 0), `trigger_mode` (bit 1), `delivery_mode` (bits 2 to 4) and
/// `reserved` (bits 5 to 7).
pub struct RedirectionTableEntry {
    raw_data: Vec<u8>,
}

impl RedirectionTableEntry {
    /// The entry's backing byte.
    pub closed spec fn spec_raw(&self) -> Seq<u8> {
        self.raw_data@
    }

    /// Well-formedness: the buffer is exactly one byte.
    pub open spec fn wf(&self) -> bool {
        self.spec_raw().len() == 1
    }

    /// A new entry with every bit zero.
    pub fn new() -> (r: RedirectionTableEntry)
        ensures
            r.wf(),
            r.spec_raw() == seq![0u8],
    {
        width_check::<ZeroMod8>();
        let raw_data: Vec<u8> = vec![0u8; 1];
        proof {
            assert(raw_data@ =~= seq![0u8]);
        }
        RedirectionTableEntry { raw_data }
    }

    /// Writes the low `width` bits of `val` at bit `offset` of the entry;
    /// every other bit is unchanged.
    pub fn set(&mut self, val: u64, offset: usize, width: usize)
        requires
            old(self).wf(),
            offset + width <= 8,
        ensures
            final(self).wf(),
            final(self).spec_raw() == spec_write_bits(
                old(self).spec_raw(),
                offset as nat,
                width as nat,
                val as nat,
            ),
    {
        write_bits(&mut self.raw_data, offset, width, val)
    }

    /// Reads the `width` bits at bit `offset` of the entry.
    pub fn get(&self, offset: usize, width: usize) -> (r: u64)
        requires
            self.wf(),
            offset + width <= 8,
        ensures
            r as nat == spec_read_bits(self.spec_raw(), offset as nat, width as nat),
            (r as nat) < pow2(width as nat),
    {
        read_bits(&self.raw_data, offset, width)
    }

    /// The entry's backing byte, for whole-record serialization.
    pub fn raw_data(&self) -> (r: &[u8])
        ensures
            r@ == self.spec_raw(),
    {
        self.raw_data.as_slice()
    }

    /// The raw bits of the `acknowledged` field.
    pub open spec fn spec_acknowledged_raw(&self) -> nat {
        spec_read_bits(self.spec_raw(), OFFSET_ACKNOWLEDGED as nat, 1)
    }

    /// The raw bits of the `trigger_mode` field.
    pub open spec fn spec_trigger_mode_raw(&self) -> nat {
        spec_read_bits(self.spec_raw(), OFFSET_TRIGGER_MODE as nat, 1)
    }

    /// The raw bits of the `delivery_mode` field.
    pub open spec fn spec_delivery_mode_raw(&self) -> nat {
        spec_read_bits(self.spec_raw(), OFFSET_DELIVERY_MODE as nat, 3)
    }

    /// The raw bits of the `reserved` field.
    pub open spec fn spec_reserved_raw(&self) -> nat {
        spec_read_bits(self.spec_raw(), OFFSET_RESERVED as nat, RESERVED_BITS as nat)
    }

    /// The `acknowledged` field.
    pub fn get_acknowledged(&self) -> (r: bool)
        requires
            self.wf(),
        ensures
            <bool as Specifier>::spec_from_raw(self.spec_acknowledged_raw() as u64) == Some(r),
    {
        let raw = self.get(OFFSET_ACKNOWLEDGED, 1);
        proof {
            assert(pow2(1) == 2) by {
                vstd::arithmetic::power2::lemma2_to64();
            }
        }
        match <bool as Specifier>::from_raw(raw) {
            Ok(v) => v,
            Err(_) => vstd::pervasive::unreached(),
        }
    }

    /// Sets the `acknowledged` field.
    pub fn set_acknowledged(&mut self, val: bool)
        requires
            old(self).wf(),
        ensures
            final(self).wf(),
            final(self).spec_raw() == spec_write_bits(
                old(self).spec_raw(),
                OFFSET_ACKNOWLEDGED as nat,
                1,
                <bool as Specifier>::spec_to_raw(val) as nat,
            ),
    {
        let raw = <bool as Specifier>::to_raw(val);
        self.set(raw, OFFSET_ACKNOWLEDGED, 1)
    }

    /// The `trigger_mode` field.
    pub fn get_trigger_mode(&self) -> (r: TriggerMode)
        requires
            self.wf(),
        ensures
            TriggerMode::spec_from_raw(self.spec_trigger_mode_raw() as u64) == Some(r),
    {
        let raw = self.get(OFFSET_TRIGGER_MODE, 1);
        proof {
            assert(pow2(1) == 2) by {
                vstd::arithmetic::power2::lemma2_to64();
            }
        }
        match TriggerMode::from_raw(raw) {
            Ok(v) => v,
            Err(_) => vstd::pervasive::unreached(),
        }
    }

    /// Sets the `trigger_mode` field.
    pub fn set_trigger_mode(&mut self, val: TriggerMode)
        requires
            old(self).wf(),
        ensures
            final(self).wf(),
            final(self).spec_raw() == spec_write_bits(
                old(self).spec_raw(),
                OFFSET_TRIGGER_MODE as nat,
                1,
                TriggerMode::spec_to_raw(val) as nat,
            ),
    {
        let raw = TriggerMode::to_raw(val);
        self.set(raw, OFFSET_TRIGGER_MODE, 1)
    }

    /// The `delivery_mode` field.
    pub fn get_delivery_mode(&self) -> (r: DeliveryMode)
        requires
            self.wf(),
        ensures
            DeliveryMode::spec_from_raw(self.spec_delivery_mode_raw() as u64) == Some(r),
    {
        let raw = self.get(OFFSET_DELIVERY_MODE, 3);
        proof {
            assert(pow2(3) == 8) by {
                vstd::arithmetic::power2::lemma2_to64();
            }
        }
        match DeliveryMode::from_raw(raw) {
            Ok(v) => v,
            Err(_) => vstd::pervasive::unreached(),
        }
    }

    /// Sets the `delivery_mode` field.
    pub fn set_delivery_mode(&mut self, val: DeliveryMode)
        requires
            old(self).wf(),
        ensures
            final(self).wf(),
            final(self).spec_raw() == spec_write_bits(
                old(self).spec_raw(),
                OFFSET_DELIVERY_MODE as nat,
                3,
                DeliveryMode::spec_to_raw(val) as nat,
            ),
    {
        let raw = DeliveryMode::to_raw(val);
        self.set(raw, OFFSET_DELIVERY_MODE, 3)
    }

    /// The `reserved` field, as the smallest container of its 3 bits.
    pub fn get_reserved(&self) -> (r: u8)
        requires
            self.wf(),
        ensures
            r as nat == self.spec_reserved_raw(),
    {
        let raw = self.get(OFFSET_RESERVED, RESERVED_BITS);
        proof {
            assert(pow2(3) == 8) by {
                vstd::arithmetic::power2::lemma2_to64();
            }
        }
        raw as u8
    }

    /// Sets the `reserved` field; bits of `val` above its width are
    /// ignored.
    pub fn set_reserved(&mut self, val: u8)
        requires
            old(self).wf(),
        ensures
            final(self).wf(),
            final(self).spec_raw() == spec_write_bits(
                old(self).spec_raw(),
                OFFSET_RESERVED as nat,
                RESERVED_BITS as nat,
                val as nat,
            ),
    {
        self.set(val as u64, OFFSET_RESERVED, RESERVED_BITS)
    }
}

} // verus!
