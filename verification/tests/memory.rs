//! Typed access to the guest's linear memory: little-endian round trips,
//! bounds checking, and the byte-slice and string descriptors.

use wasabi::mem::{Mem, MemError};

#[test]
fn get_set_i32() {
    let mut mem = Mem::with_len(1000);
    mem.set_i32(100, 3456).unwrap();
    assert_eq!(mem.get_i32(100).unwrap(), 3456);
}

#[test]
fn get_set_i64() {
    let mut mem = Mem::with_len(1000);
    mem.set_i64(100, 3456).unwrap();
    assert_eq!(mem.get_i64(100).unwrap(), 3456);
}

#[test]
fn negative_values_round_trip() {
    let mut mem = Mem::with_len(64);
    mem.set_i32(0, -77).unwrap();
    assert_eq!(mem.get_i32(0).unwrap(), -77);
    mem.set_i64(8, i64::MIN).unwrap();
    assert_eq!(mem.get_i64(8).unwrap(), i64::MIN);
}

#[test]
fn out_of_bounds_is_invalid_address() {
    let mut mem = Mem::with_len(16);
    assert_eq!(mem.get_i32(9), Err(MemError::InvalidAddress));
    assert_eq!(mem.get_i32(-1), Err(MemError::InvalidAddress));
    assert_eq!(mem.set_i32(13, 1), Err(MemError::InvalidAddress));
    assert!(mem.set_bool(15, true).is_ok());
    assert_eq!(mem.set_bool(16, true), Err(MemError::InvalidAddress));
}

#[test]
fn bytes_descriptor_reads_pointed_range() {
    let mut mem = Mem::with_len(128);
    // descriptor at 0: pointer 32, length 5; the bytes live at 32
    mem.set_i32(0, 32).unwrap();
    mem.set_i32(8, 5).unwrap();
    mem.write_bytes(32, b"Hello").unwrap();
    assert_eq!(mem.get_bytes(0).unwrap(), b"Hello".to_vec());
    assert_eq!(mem.get_string(0).unwrap(), "Hello".to_string());
}

#[test]
fn invalid_utf8_is_rejected() {
    let mut mem = Mem::with_len(128);
    mem.set_i32(0, 32).unwrap();
    mem.set_i32(8, 2).unwrap();
    mem.write_bytes(32, &[0xFF, 0xFE]).unwrap();
    assert_eq!(mem.get_string(0), Err(MemError::InvalidString));
}
