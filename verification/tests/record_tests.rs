//! Tests of record instances assembled at run time.

use bitfield::BitfieldError;
use bitfield::layout::RecordLayout;
use bitfield::record::Record;
use bitfield::specifier::FieldSpecifier;
use bitfield::specifier::FieldValue;

fn five_field_record() -> Record {
    let layout = RecordLayout::new(vec![
        ("a".to_string(), FieldSpecifier::unsigned(1)),
        ("b".to_string(), FieldSpecifier::unsigned(4)),
        ("c".to_string(), FieldSpecifier::unsigned(7)),
        ("d".to_string(), FieldSpecifier::unsigned(13)),
        ("e".to_string(), FieldSpecifier::unsigned(7)),
    ])
    .unwrap();
    Record::new(layout)
}

#[test]
fn new_record_is_zeroed() {
    let rec = five_field_record();
    assert_eq!(rec.raw_bytes(), &vec![0u8; 4]);
    for i in 0..5 {
        assert_eq!(rec.get_field_raw(i), 0);
    }
}

#[test]
fn concrete_scenario() {
    let mut rec = five_field_record();
    rec.set_field(0, FieldValue::Unsigned(1));
    assert_eq!(rec.raw_bytes(), &vec![0b0000_0001, 0, 0, 0]);
    rec.set_field(0, FieldValue::Unsigned(0));
    rec.set_field(1, FieldValue::Unsigned(0b1001));
    assert_eq!(rec.get_field(1), Ok(FieldValue::Unsigned(0b1001)));
    assert_eq!(rec.get_field(0), Ok(FieldValue::Unsigned(0)));
    rec.set_field(3, FieldValue::Unsigned(0b1_0001_0000_0011));
    assert_eq!(rec.get_field(3), Ok(FieldValue::Unsigned(0b1_0001_0000_0011)));
    assert_eq!(rec.get_field(2), Ok(FieldValue::Unsigned(0)));
    assert_eq!(rec.get_field(4), Ok(FieldValue::Unsigned(0)));
}

#[test]
fn every_field_keeps_its_own_pattern() {
    let mut rec = five_field_record();
    let patterns: [u64; 5] = [1, 0b1010, 0b101_0101, 0b1_0101_0101_0101, 0b010_1010];
    for (i, p) in patterns.iter().enumerate() {
        rec.set_field(i, FieldValue::Unsigned(*p));
    }
    for (i, p) in patterns.iter().enumerate() {
        assert_eq!(rec.get_field(i), Ok(FieldValue::Unsigned(*p)));
    }
}

#[test]
fn setter_masks_out_of_width_value() {
    let mut rec = five_field_record();
    rec.set_field(1, FieldValue::Unsigned(0xFF));
    assert_eq!(rec.get_field(1), Ok(FieldValue::Unsigned(0xF)));
    assert_eq!(rec.get_field(0), Ok(FieldValue::Unsigned(0)));
    assert_eq!(rec.get_field(2), Ok(FieldValue::Unsigned(0)));
}

#[test]
fn enum_field_round_trips_variant() {
    let layout = RecordLayout::new(vec![
        (
            "mode".to_string(),
            FieldSpecifier::enumeration(vec![0, 1, 2, 3, 4, 5, 6, 7]).unwrap(),
        ),
        ("rest".to_string(), FieldSpecifier::unsigned(5)),
    ])
    .unwrap();
    let mut rec = Record::new(layout);
    rec.set_field(0, FieldValue::Variant(5));
    assert_eq!(rec.get_field_raw(0), 5);
    assert_eq!(rec.get_field(0), Ok(FieldValue::Variant(5)));
    assert_eq!(rec.get_field(1), Ok(FieldValue::Unsigned(0)));
}

#[test]
fn enum_field_with_custom_discriminants() {
    let layout = RecordLayout::new(vec![
        (
            "mode".to_string(),
            FieldSpecifier::enumeration(vec![3, 0, 2, 1]).unwrap(),
        ),
        ("rest".to_string(), FieldSpecifier::unsigned(6)),
    ])
    .unwrap();
    let mut rec = Record::new(layout);
    rec.set_field(0, FieldValue::Variant(0));
    assert_eq!(rec.get_field_raw(0), 3);
    assert_eq!(rec.get_field(0), Ok(FieldValue::Variant(0)));
}

#[test]
fn corrupted_enum_field_reports_decode_error() {
    let layout = RecordLayout::new(vec![
        (
            "mode".to_string(),
            FieldSpecifier::enumeration(vec![0, 1, 2, 2]).unwrap(),
        ),
        ("rest".to_string(), FieldSpecifier::unsigned(6)),
    ])
    .unwrap();
    let mut rec = Record::new(layout);
    rec.set_field_raw(0, 3);
    assert_eq!(rec.get_field(0), Err(BitfieldError::DecodeError));
    rec.set_field_raw(0, 2);
    assert_eq!(rec.get_field(0), Ok(FieldValue::Variant(2)));
}

#[test]
fn boolean_field_reads_back() {
    let layout = RecordLayout::new(vec![
        ("flag".to_string(), FieldSpecifier::boolean()),
        ("rest".to_string(), FieldSpecifier::unsigned(7)),
    ])
    .unwrap();
    let mut rec = Record::new(layout);
    assert_eq!(rec.get_field(0), Ok(FieldValue::Boolean(false)));
    rec.set_field(0, FieldValue::Boolean(true));
    assert_eq!(rec.get_field(0), Ok(FieldValue::Boolean(true)));
    assert_eq!(rec.get_field(1), Ok(FieldValue::Unsigned(0)));
    assert_eq!(rec.raw_bytes(), &vec![0b0000_0001]);
}
