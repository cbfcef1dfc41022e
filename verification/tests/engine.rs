//! Tests of the byte-level accessor engine.

use bitfield::BitfieldError;
use bitfield::accessor::read_bits;
use bitfield::accessor::try_read_bits;
use bitfield::accessor::try_write_bits;
use bitfield::accessor::write_bits;
use bitfield::mask_from_width;

#[test]
fn round_trip_on_zeroed_buffer() {
    let mut buf: Vec<u8> = vec![0u8; 8];
    write_bits(&mut buf, 5, 13, 0b1_0001_0000_0011);
    assert_eq!(read_bits(&buf, 5, 13), 0b1_0001_0000_0011);
}

#[test]
fn round_trip_on_patterned_buffer() {
    let mut buf: Vec<u8> = vec![0xA5, 0x3C, 0xFF, 0x00, 0x77, 0x81, 0x42, 0x99];
    write_bits(&mut buf, 11, 23, 0x55_AA_7);
    assert_eq!(read_bits(&buf, 11, 23), 0x55_AA_7);
}

#[test]
fn round_trip_width_one() {
    let mut buf: Vec<u8> = vec![0u8; 2];
    write_bits(&mut buf, 9, 1, 1);
    assert_eq!(read_bits(&buf, 9, 1), 1);
    assert_eq!(buf, vec![0x00, 0x02]);
    write_bits(&mut buf, 9, 1, 0);
    assert_eq!(read_bits(&buf, 9, 1), 0);
    assert_eq!(buf, vec![0x00, 0x00]);
}

#[test]
fn round_trip_width_eight_aligned() {
    let mut buf: Vec<u8> = vec![0u8; 3];
    write_bits(&mut buf, 8, 8, 0xC3);
    assert_eq!(buf, vec![0x00, 0xC3, 0x00]);
    assert_eq!(read_bits(&buf, 8, 8), 0xC3);
}

#[test]
fn round_trip_width_eight_misaligned() {
    let mut buf: Vec<u8> = vec![0u8; 3];
    write_bits(&mut buf, 3, 8, 0xFF);
    assert_eq!(buf, vec![0xF8, 0x07, 0x00]);
    assert_eq!(read_bits(&buf, 3, 8), 0xFF);
}

#[test]
fn round_trip_width_sixty_four() {
    let mut buf: Vec<u8> = vec![0u8; 9];
    write_bits(&mut buf, 0, 64, u64::MAX);
    assert_eq!(read_bits(&buf, 0, 64), u64::MAX);
    assert_eq!(buf[8], 0x00);
    let mut buf2: Vec<u8> = vec![0u8; 9];
    write_bits(&mut buf2, 5, 64, 0x0123_4567_89AB_CDEF);
    assert_eq!(read_bits(&buf2, 5, 64), 0x0123_4567_89AB_CDEF);
}

#[test]
fn field_spanning_two_bytes() {
    let mut buf: Vec<u8> = vec![0u8; 2];
    write_bits(&mut buf, 6, 4, 0b1011);
    assert_eq!(buf, vec![0b1100_0000, 0b0000_0010]);
    assert_eq!(read_bits(&buf, 6, 4), 0b1011);
}

#[test]
fn field_spanning_three_bytes() {
    let mut buf: Vec<u8> = vec![0u8; 4];
    write_bits(&mut buf, 7, 10, 0b11_1111_1111);
    assert_eq!(buf, vec![0b1000_0000, 0xFF, 0b0000_0001, 0x00]);
    assert_eq!(read_bits(&buf, 7, 10), 0b11_1111_1111);
}

#[test]
fn write_masks_value_to_width() {
    let mut buf: Vec<u8> = vec![0u8; 2];
    write_bits(&mut buf, 4, 3, 0xFF);
    assert_eq!(read_bits(&buf, 4, 3), 0b111);
    assert_eq!(buf, vec![0b0111_0000, 0x00]);
}

#[test]
fn write_is_idempotent() {
    let mut once: Vec<u8> = vec![0x5A, 0xC3, 0x0F];
    let mut twice = once.clone();
    write_bits(&mut once, 6, 11, 0b101_0101_0101);
    write_bits(&mut twice, 6, 11, 0b101_0101_0101);
    write_bits(&mut twice, 6, 11, 0b101_0101_0101);
    assert_eq!(once, twice);
}

#[test]
fn write_leaves_other_bits_alone() {
    let mut buf: Vec<u8> = vec![0xFF, 0xFF, 0xFF];
    write_bits(&mut buf, 6, 4, 0);
    assert_eq!(buf, vec![0b0011_1111, 0b1111_1100, 0xFF]);
    assert_eq!(read_bits(&buf, 0, 6), 0b11_1111);
    assert_eq!(read_bits(&buf, 10, 14), 0b11_1111_1111_1111);
}

#[test]
fn try_read_rejects_out_of_range() {
    let buf: Vec<u8> = vec![0u8; 2];
    assert_eq!(try_read_bits(&buf, 0, 16), Ok(0));
    assert_eq!(try_read_bits(&buf, 9, 8), Err(BitfieldError::OutOfRange));
    assert_eq!(try_read_bits(&buf, 0, 65), Err(BitfieldError::OutOfRange));
    assert_eq!(try_read_bits(&buf, 16, 1), Err(BitfieldError::OutOfRange));
}

#[test]
fn try_write_rejects_out_of_range_and_keeps_buffer() {
    let mut buf: Vec<u8> = vec![0xAB, 0xCD];
    assert_eq!(
        try_write_bits(&mut buf, 9, 8, 0xFF),
        Err(BitfieldError::OutOfRange)
    );
    assert_eq!(buf, vec![0xAB, 0xCD]);
    assert_eq!(try_write_bits(&mut buf, 8, 8, 0x12), Ok(()));
    assert_eq!(buf, vec![0xAB, 0x12]);
}

#[test]
fn mask_from_width_values() {
    assert_eq!(mask_from_width(0), 0);
    assert_eq!(mask_from_width(1), 1);
    assert_eq!(mask_from_width(3), 7);
    assert_eq!(mask_from_width(7), 127);
    assert_eq!(mask_from_width(8), 255);
}
