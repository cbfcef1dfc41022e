//! Tests of layout computation and specifier validation.

use bitfield::BitfieldError;
use bitfield::layout::RecordLayout;
use bitfield::specifier::FieldSpecifier;
use bitfield::specifier::container_width;

fn unsigned_fields(widths: &[usize]) -> Vec<(String, FieldSpecifier)> {
    let names = ["a", "b", "c", "d", "e", "f", "g", "h"];
    widths
        .iter()
        .enumerate()
        .map(|(i, w)| (names[i].to_string(), FieldSpecifier::unsigned(*w)))
        .collect()
}

#[test]
fn layout_offsets_and_size() {
    let layout = RecordLayout::new(unsigned_fields(&[1, 4, 7, 13, 7])).unwrap();
    assert_eq!(layout.field_count(), 5);
    let expected_offsets = [0, 1, 5, 12, 25];
    for (i, off) in expected_offsets.iter().enumerate() {
        assert_eq!(layout.field(i).bit_offset(), *off);
    }
    assert_eq!(layout.total_bits(), 32);
    assert_eq!(layout.total_bytes(), 4);
    assert_eq!(layout.field(3).name(), "d");
    assert_eq!(layout.field(3).specifier().bits(), 13);
}

#[test]
fn misaligned_total_is_rejected() {
    let r = RecordLayout::new(unsigned_fields(&[1, 4, 7]));
    assert!(matches!(r, Err(BitfieldError::MisalignedLayout)));
}

#[test]
fn empty_layout_is_byte_aligned() {
    let layout = RecordLayout::new(Vec::new()).unwrap();
    assert_eq!(layout.field_count(), 0);
    assert_eq!(layout.total_bits(), 0);
    assert_eq!(layout.total_bytes(), 0);
}

#[test]
fn enumeration_width_is_log2_of_count() {
    let two = FieldSpecifier::enumeration(vec![0, 1]).unwrap();
    assert_eq!(two.bits(), 1);
    let eight = FieldSpecifier::enumeration(vec![0, 1, 2, 3, 4, 5, 6, 7]).unwrap();
    assert_eq!(eight.bits(), 3);
    let sixteen = FieldSpecifier::enumeration((0..16).collect()).unwrap();
    assert_eq!(sixteen.bits(), 4);
}

#[test]
fn enumeration_rejects_non_power_of_two_count() {
    let r = FieldSpecifier::enumeration(vec![0, 1, 2]);
    assert!(matches!(r, Err(BitfieldError::InvalidVariantCount)));
    let empty = FieldSpecifier::enumeration(Vec::new());
    assert!(matches!(empty, Err(BitfieldError::InvalidVariantCount)));
    let one = FieldSpecifier::enumeration(vec![0]);
    assert!(matches!(one, Err(BitfieldError::InvalidVariantCount)));
    let six = FieldSpecifier::enumeration(vec![0, 1, 2, 3, 4, 5]);
    assert!(matches!(six, Err(BitfieldError::InvalidVariantCount)));
}

#[test]
fn enumeration_rejects_wide_discriminant() {
    let r = FieldSpecifier::enumeration(vec![0, 1, 2, 4]);
    assert!(matches!(r, Err(BitfieldError::DiscriminantOverflow)));
    let fits = FieldSpecifier::enumeration(vec![3, 2, 1, 0]);
    assert!(fits.is_ok());
}

#[test]
fn container_width_per_range() {
    assert_eq!(container_width(1), 8);
    assert_eq!(container_width(8), 8);
    assert_eq!(container_width(9), 16);
    assert_eq!(container_width(16), 16);
    assert_eq!(container_width(17), 32);
    assert_eq!(container_width(32), 32);
    assert_eq!(container_width(33), 64);
    assert_eq!(container_width(64), 64);
}

#[test]
fn boolean_specifier_is_one_bit() {
    let b = FieldSpecifier::boolean();
    assert_eq!(b.bits(), 1);
    let layout = RecordLayout::new(vec![
        ("flag".to_string(), FieldSpecifier::boolean()),
        ("rest".to_string(), FieldSpecifier::unsigned(7)),
    ])
    .unwrap();
    assert_eq!(layout.total_bytes(), 1);
}
