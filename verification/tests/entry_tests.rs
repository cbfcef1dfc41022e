//! Tests of the statically typed redirection-table entry.

use bitfield::BitfieldError;
use bitfield::entry::DeliveryMode;
use bitfield::entry::RedirectionTableEntry;
use bitfield::entry::TriggerMode;
use bitfield::specifier::Specifier;

#[test]
fn specifier_widths() {
    assert_eq!(<TriggerMode as Specifier>::bits(), 1);
    assert_eq!(<DeliveryMode as Specifier>::bits(), 3);
    assert_eq!(<bool as Specifier>::bits(), 1);
}

#[test]
fn specifier_conversions_round_trip() {
    assert_eq!(DeliveryMode::to_raw(DeliveryMode::Init), 5);
    assert_eq!(DeliveryMode::from_raw(5), Ok(DeliveryMode::Init));
    assert_eq!(TriggerMode::to_raw(TriggerMode::Level), 1);
    assert_eq!(TriggerMode::from_raw(1), Ok(TriggerMode::Level));
    assert_eq!(<bool as Specifier>::to_raw(true), 1);
    assert_eq!(<bool as Specifier>::from_raw(0), Ok(false));
}

#[test]
fn specifier_rejects_unknown_raw_value() {
    assert_eq!(DeliveryMode::from_raw(8), Err(BitfieldError::DecodeError));
    assert_eq!(TriggerMode::from_raw(2), Err(BitfieldError::DecodeError));
    assert_eq!(<bool as Specifier>::from_raw(2), Err(BitfieldError::DecodeError));
}

#[test]
fn new_entry_is_zeroed() {
    let entry = RedirectionTableEntry::new();
    assert_eq!(entry.raw_data(), &[0u8]);
    assert_eq!(entry.get_acknowledged(), false);
    assert_eq!(entry.get_trigger_mode(), TriggerMode::Edge);
    assert_eq!(entry.get_delivery_mode(), DeliveryMode::Fixed);
    assert_eq!(entry.get_reserved(), 0);
}

#[test]
fn set_fields_and_read_back() {
    let mut entry = RedirectionTableEntry::new();
    entry.set_acknowledged(true);
    entry.set_delivery_mode(DeliveryMode::SMI);
    assert_eq!(entry.get_acknowledged(), true);
    assert_eq!(entry.get_trigger_mode(), TriggerMode::Edge);
    assert_eq!(entry.get_delivery_mode(), DeliveryMode::SMI);
}

#[test]
fn entry_packs_fields_into_one_byte() {
    let mut entry = RedirectionTableEntry::new();
    entry.set_acknowledged(true);
    entry.set_trigger_mode(TriggerMode::Level);
    entry.set_delivery_mode(DeliveryMode::External);
    entry.set_reserved(0b101);
    // bit 0 = 1, bit 1 = 1, bits 2..=4 = 0b111, bits 5..=7 = 0b101.
    assert_eq!(entry.raw_data(), &[0b1011_1111]);
    assert_eq!(entry.get_acknowledged(), true);
    assert_eq!(entry.get_trigger_mode(), TriggerMode::Level);
    assert_eq!(entry.get_delivery_mode(), DeliveryMode::External);
    assert_eq!(entry.get_reserved(), 0b101);
}

#[test]
fn reserved_setter_masks_to_three_bits() {
    let mut entry = RedirectionTableEntry::new();
    entry.set_reserved(0xFF);
    assert_eq!(entry.get_reserved(), 0b111);
    assert_eq!(entry.get_acknowledged(), false);
    assert_eq!(entry.get_delivery_mode(), DeliveryMode::Fixed);
}

#[test]
fn every_delivery_mode_round_trips() {
    let modes = [
        DeliveryMode::Fixed,
        DeliveryMode::Lowest,
        DeliveryMode::SMI,
        DeliveryMode::RemoteRead,
        DeliveryMode::NMI,
        DeliveryMode::Init,
        DeliveryMode::Startup,
        DeliveryMode::External,
    ];
    let mut entry = RedirectionTableEntry::new();
    for mode in modes {
        entry.set_delivery_mode(mode);
        assert_eq!(entry.get_delivery_mode(), mode);
    }
}

#[test]
fn raw_set_and_get_compose_with_typed_access() {
    let mut entry = RedirectionTableEntry::new();
    entry.set(0b110, 2, 3);
    assert_eq!(entry.get(2, 3), 0b110);
    assert_eq!(entry.get_delivery_mode(), DeliveryMode::Startup);
    assert_eq!(entry.get_acknowledged(), false);
}
