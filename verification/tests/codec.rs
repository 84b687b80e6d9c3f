//! The tagged 8-byte slot encoding: integers and handles round-trip, and
//! the integer zero shares its encoding with handle 1 by design.

use wasabi::js::{int_from_value, load_value, store_value};

#[test]
fn store_and_load_fuzz() {
    assert_eq!((42, false), load_value(&store_value((42, false))));
    assert_eq!((42, true), load_value(&store_value((42, true))));

    // greater than i32 is ok for numbers
    let big = (i32::MAX as i64) + 10; // 2147483657
    assert_eq!((big, false), load_value(&store_value((big, false))));

    // not for refs
    assert_eq!((-2147483639, true), load_value(&store_value((big, true))));
}

#[test]
fn integer_round_trip_edges() {
    assert_eq!((0, false), load_value(&store_value((0, false))));
    assert_eq!((-1, false), load_value(&store_value((-1, false))));
    assert_eq!((1, false), load_value(&store_value((1, false))));
    let max = i32::MAX as i64;
    let min = i32::MIN as i64;
    assert_eq!((max, false), load_value(&store_value((max, false))));
    assert_eq!((min, false), load_value(&store_value((min, false))));
}

#[test]
fn handle_round_trip_edges() {
    assert_eq!((0, true), load_value(&store_value((0, true))));
    assert_eq!((2, true), load_value(&store_value((2, true))));
    assert_eq!((7, true), load_value(&store_value((7, true))));
    let top = (1i64 << 31) - 1;
    assert_eq!((top, true), load_value(&store_value((top, true))));
}

#[test]
fn handle_one_aliases_integer_zero() {
    // handle 1 is the interned zero: its slot reads back as the integer 0
    assert_eq!((0, false), load_value(&store_value((1, true))));
    assert_eq!(0, int_from_value((1, true)));
    assert_eq!(5, int_from_value((5, false)));
    assert_eq!(5, int_from_value((5, true)));
}

#[test]
fn zero_slot_bytes_carry_nan_head() {
    let out = store_value((0, false));
    assert_eq!(out[0], 1);
    assert_eq!(&out[4..8], &[0x00, 0x00, 0xF8, 0x7F]);
    let out = store_value((3, true));
    assert_eq!(out[0], 3);
    assert_eq!(&out[4..8], &[0x00, 0x00, 0xF8, 0x7F]);
}
