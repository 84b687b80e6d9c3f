//! The emulated JavaScript value world the guest manipulates: the tagged
//! 8-byte slot encoding of the ABI, and the slab of values behind it.
//!
//! A slot is 8 bytes, little-endian. If its high 32 bits are the quiet-NaN
//! head `0x7FF8_0000`, its low 32 bits carry a slab handle; otherwise the 8
//! bytes are an IEEE-754 double, and a double that holds an integer exactly
//! is read back as that integer. The integer zero is encoded as the handle
//! `1` (the slab's interned zero) so that it cannot collide with the all-zero
//! double, and that encoding decodes back to the integer zero.

use vstd::prelude::*;

use crate::bytes::{
    as_i64_le, lemma_i64_u64_of_le, spec_u64_le_bytes, spec_u64_of_le, u64_as_u8_le,
};

verus! {

/// The quiet-NaN head marking a slot as a handle, in the high 32 bits.
pub const NAN_HEAD_BITS: u64 = 0x7FF8_0000_0000_0000;

/// Floor of the base-2 logarithm; 0 for 0 and 1.
pub open spec fn floor_log2(n: nat) -> nat
    decreases n,
{
    if n < 2 {
        0
    } else {
        1 + floor_log2(n / 2)
    }
}

/// The magnitude of an `i64` as a `u64` (`i64::MIN` has magnitude `2^63`).
pub open spec fn spec_abs64(n: i64) -> u64 {
    if n < 0 {
        (-(n as int)) as u64
    } else {
        n as u64
    }
}

/// The IEEE-754 double bit pattern of a non-zero integer, rounding to
/// nearest-even where more than 53 significant bits are needed.
pub open spec fn spec_f64_bits(n: i64) -> u64 {
    let s: u64 = if n < 0 {
        1
    } else {
        0
    };
    let m: u64 = spec_abs64(n);
    let e: u64 = floor_log2(m as nat) as u64;
    if e <= 52 {
        (s << 63) | (((1023 + e) as u64) << 52) | (((m << ((52 - e) as u64)) - (1u64 << 52))
            as u64)
    } else {
        let shift: u64 = (e - 52) as u64;
        let keep: u64 = m >> shift;
        let rem: u64 = m & (((1u64 << shift) - 1) as u64);
        let half: u64 = 1u64 << ((shift - 1) as u64);
        let keep2: u64 = if rem > half || (rem == half && keep & 1 == 1) {
            (keep + 1) as u64
        } else {
            keep
        };
        if keep2 == (1u64 << 53) {
            (s << 63) | (((1024 + e) as u64) << 52)
        } else {
            (s << 63) | (((1023 + e) as u64) << 52) | ((keep2 - (1u64 << 52)) as u64)
        }
    }
}

/// The 8 slot bytes (as one little-endian `u64`) encoding a value pair:
/// a handle gets the NaN head over its low 32 bits, the integer zero is
/// aliased to handle `1`, and any other integer becomes a double.
pub open spec fn spec_store_slot(v: i64, is_ref: bool) -> u64 {
    if is_ref {
        NAN_HEAD_BITS | (((v as i32) as u32) as u64)
    } else if v == 0 {
        NAN_HEAD_BITS | 1u64
    } else {
        spec_f64_bits(v)
    }
}

/// The value pair a slot decodes to: a NaN-headed slot is a handle (except
/// the zero alias), a double holding an integer exactly is that integer, and
/// any other double is read as a handle from its low 32 bits.
pub open spec fn spec_load_slot(bits: u64) -> (i64, bool) {
    let lo: i64 = ((bits as u32) as i32) as i64;
    if (bits >> 32) as u32 == 0x7FF8_0000u32 {
        if bits as u32 == 1u32 {
            (0i64, false)
        } else {
            (lo, true)
        }
    } else {
        let s: u64 = bits >> 63;
        let expf: u64 = (bits >> 52) & 0x7FF;
        let mant: u64 = bits & 0xF_FFFF_FFFF_FFFF;
        if expf == 0 && mant == 0 {
            (0i64, false)
        } else if expf < 1023 {
            (lo, true)
        } else if expf <= 1023 + 52 {
            let k: u64 = (expf - 1023) as u64;
            if mant & (((1u64 << ((52 - k) as u64)) - 1) as u64) == 0 {
                let mag: u64 = ((1u64 << 52) | mant) >> ((52 - k) as u64);
                (
                    if s == 1 {
                        (-(mag as int)) as i64
                    } else {
                        mag as i64
                    },
                    false,
                )
            } else {
                (lo, true)
            }
        } else if expf <= 1023 + 62 {
            let k: u64 = (expf - 1023) as u64;
            let mag: u64 = ((1u64 << 52) | mant) << ((k - 52) as u64);
            (
                if s == 1 {
                    (-(mag as int)) as i64
                } else {
                    mag as i64
                },
                false,
            )
        } else if expf == 1023 + 63 && mant == 0 {
            (
                if s == 1 {
                    i64::MIN
                } else {
                    i64::MAX
                },
                false,
            )
        } else {
            (lo, true)
        }
    }
}

proof fn lemma_floor_log2_bits(m: u64)
    requires
        m >= 1,
    ensures
        floor_log2(m as nat) <= 63,
        m >> ((floor_log2(m as nat)) as u64) == 1u64,
    decreases m,
{
    if m < 2 {
        assert(m >> 0u64 == m) by (bit_vector);
    } else {
        let h = m / 2;
        lemma_floor_log2_bits(h);
        let e1 = floor_log2(h as nat) as u64;
        assert(h >> e1 == 1u64 && e1 <= 63 && h == m / 2 && m >= 2 ==> e1 <= 62) by (bit_vector);
        assert(h == m / 2 && h >> e1 == 1u64 && e1 <= 62 ==> m >> ((e1 + 1) as u64) == 1u64)
            by (bit_vector);
        assert(floor_log2(m as nat) == 1 + floor_log2(h as nat));
    }
}

/// Computes `floor_log2` of a positive number.
fn floor_log2_exec(m: u64) -> (e: u64)
    requires
        m >= 1,
    ensures
        e == floor_log2(m as nat),
        e <= 63,
        m >> e == 1u64,
{
    proof {
        lemma_floor_log2_bits(m);
    }
    let mut e: u64 = 0;
    let mut t: u64 = m;
    while t >= 2
        invariant
            t >= 1,
            e + floor_log2(t as nat) == floor_log2(m as nat),
            floor_log2(m as nat) <= 63,
        decreases t,
    {
        t = t / 2;
        e = e + 1;
    }
    e
}

/// Computes the IEEE-754 double bit pattern of a non-zero integer.
fn f64_bits_from_i64(n: i64) -> (bits: u64)
    requires
        n != 0,
    ensures
        bits == spec_f64_bits(n),
{
    let sign: u64 = if n < 0 {
        1
    } else {
        0
    };
    let m: u64 = if n < 0 {
        ((-(n + 1)) as u64) + 1
    } else {
        n as u64
    };
    proof {
        assert(m == spec_abs64(n));
    }
    let e = floor_log2_exec(m);
    if e <= 52 {
        assert(m >> e == 1u64 && e <= 52 ==> (m << ((52 - e) as u64)) >= (1u64 << 52))
            by (bit_vector);
        (sign << 63) | ((1023 + e) << 52) | ((m << (52 - e)) - (1u64 << 52))
    } else {
        let shift = e - 52;
        assert(m >> e == 1u64 && 53 <= e <= 63 ==> (m >> ((e - 52) as u64)) >= (1u64 << 52) && (m
            >> ((e - 52) as u64)) < (1u64 << 53)) by (bit_vector);
        assert(shift <= 63 ==> (1u64 << shift) >= 1 && (1u64 << ((shift - 1) as u64)) >= 0)
            by (bit_vector);
        let keep = m >> shift;
        let rem = m & ((1u64 << shift) - 1);
        let half = 1u64 << (shift - 1);
        let keep2 = if rem > half || (rem == half && keep & 1 == 1) {
            keep + 1
        } else {
            keep
        };
        if keep2 == (1u64 << 53) {
            (sign << 63) | ((1024 + e) << 52)
        } else {
            (sign << 63) | ((1023 + e) << 52) | (keep2 - (1u64 << 52))
        }
    }
}

/// Decodes an 8-byte tagged slot into `(value, is_handle)`.
pub fn load_value(b: &[u8]) -> (r: (i64, bool))
    requires
        b@.len() >= 8,
    ensures
        r == spec_load_slot(
            spec_u64_of_le(b@[0], b@[1], b@[2], b@[3], b@[4], b@[5], b@[6], b@[7]),
        ),
{
    proof {
        lemma_i64_u64_of_le(b@[0], b@[1], b@[2], b@[3], b@[4], b@[5], b@[6], b@[7]);
    }
    let bits: u64 = as_i64_le(b) as u64;
    let lo: i64 = ((bits as u32) as i32) as i64;
    if (bits >> 32) as u32 == 0x7FF8_0000u32 {
        if bits as u32 == 1u32 {
            (0i64, false)
        } else {
            (lo, true)
        }
    } else {
        let s: u64 = bits >> 63;
        let expf: u64 = (bits >> 52) & 0x7FF;
        let mant: u64 = bits & 0xF_FFFF_FFFF_FFFF;
        if expf == 0 && mant == 0 {
            (0i64, false)
        } else if expf < 1023 {
            (lo, true)
        } else if expf <= 1023 + 52 {
            let k: u64 = expf - 1023;
            assert(k <= 52 ==> (1u64 << ((52 - k) as u64)) >= 1) by (bit_vector);
            assert((bits & 0xF_FFFF_FFFF_FFFF) < (1u64 << 52)) by (bit_vector);
            if mant & ((1u64 << (52 - k)) - 1) == 0 {
                let mag: u64 = ((1u64 << 52) | mant) >> (52 - k);
                assert(((1u64 << 52) | mant) >> ((52 - k) as u64) < (1u64 << 63)) by (bit_vector)
                    requires
                        mant < (1u64 << 52),
                        k <= 52,
                ;
                assert((1u64 << 63) == 0x8000_0000_0000_0000u64) by (bit_vector);
                if s == 1 {
                    (-(mag as i64), false)
                } else {
                    (mag as i64, false)
                }
            } else {
                (lo, true)
            }
        } else if expf <= 1023 + 62 {
            let k: u64 = expf - 1023;
            assert((bits & 0xF_FFFF_FFFF_FFFF) < (1u64 << 52)) by (bit_vector);
            let mag: u64 = ((1u64 << 52) | mant) << (k - 52);
            assert((((1u64 << 52) | mant) << ((k - 52) as u64)) < (1u64 << 63)) by (bit_vector)
                requires
                    mant < (1u64 << 52),
                    53 <= k <= 62,
            ;
            assert((1u64 << 63) == 0x8000_0000_0000_0000u64) by (bit_vector);
            if s == 1 {
                (-(mag as i64), false)
            } else {
                (mag as i64, false)
            }
        } else if expf == 1023 + 63 && mant == 0 {
            if s == 1 {
                (i64::MIN, false)
            } else {
                (i64::MAX, false)
            }
        } else {
            (lo, true)
        }
    }
}

/// Encodes a `(value, is_handle)` pair as its 8 tagged slot bytes.
pub fn store_value(r: (i64, bool)) -> (out: [u8; 8])
    ensures
        out@ == spec_u64_le_bytes(spec_store_slot(r.0, r.1)),
{
    let bits: u64 = if r.1 {
        0x7FF8_0000_0000_0000u64 | (((r.0 as i32) as u32) as u64)
    } else if r.0 == 0 {
        0x7FF8_0000_0000_0001u64
    } else {
        f64_bits_from_i64(r.0)
    };
    assert(0x7FF8_0000_0000_0000u64 | 1u64 == 0x7FF8_0000_0000_0001u64) by (bit_vector);
    u64_as_u8_le(bits)
}

/// The integer a decoded slot stands for: the zero-alias handle `1` means
/// the integer zero; anything else carries its own value.
pub open spec fn spec_int_from(val: (i64, bool)) -> i64 {
    if val == (1i64, true) {
        0i64
    } else {
        val.0
    }
}

/// Reads the integer a decoded slot stands for.
pub fn int_from_value(val: (i64, bool)) -> (r: i64)
    ensures
        r == spec_int_from(val),
{
    if val.1 && val.0 == 1 {
        0
    } else {
        val.0
    }
}

/// Exactly representable integers survive the slot encoding: storing a
/// non-handle integer of magnitude below `2^53` and loading the slot back
/// yields the same integer. In particular every `i32` does.
pub proof fn lemma_slot_roundtrip_int(n: i64)
    requires
        -0x20_0000_0000_0000 < n < 0x20_0000_0000_0000,
    ensures
        spec_load_slot(spec_store_slot(n, false)) == (n, false),
{
    if n == 0 {
        assert(spec_load_slot(0x7FF8_0000_0000_0001u64) == (0i64, false)) by {
            assert((0x7FF8_0000_0000_0001u64 >> 32) as u32 == 0x7FF8_0000u32) by (bit_vector);
            assert(0x7FF8_0000_0000_0001u64 as u32 == 1u32) by (bit_vector);
        }
        assert(0x7FF8_0000_0000_0000u64 | 1u64 == 0x7FF8_0000_0000_0001u64) by (bit_vector);
    } else {
        let s: u64 = if n < 0 {
            1
        } else {
            0
        };
        let m: u64 = spec_abs64(n);
        lemma_floor_log2_bits(m);
        let e: u64 = floor_log2(m as nat) as u64;
        assert((1u64 << 53) == 0x20_0000_0000_0000u64) by (bit_vector);
        assert(m < (1u64 << 53));
        assert(m >> e == 1u64 && m < (1u64 << 53) ==> e <= 52) by (bit_vector);
        assert(e <= 52);
        let mant: u64 = ((m << ((52 - e) as u64)) - (1u64 << 52)) as u64;
        let bits: u64 = (s << 63) | (((1023 + e) as u64) << 52) | mant;
        assert(bits == spec_f64_bits(n));
        assert((s <= 1 && e <= 52 && m >> e == 1u64 && mant == ((m << ((52 - e) as u64)) - (1u64
            << 52)) as u64 && bits == (s << 63) | (((1023 + e) as u64) << 52) | mant) ==> ((bits
            >> 32) as u32 != 0x7FF8_0000u32 && bits >> 63 == s && (bits >> 52) & 0x7FF == (1023
            + e) as u64 && (bits & 0xF_FFFF_FFFF_FFFF) == mant && mant < (1u64 << 52)))
            by (bit_vector);
        assert((e <= 52 && m >> e == 1u64 && mant == ((m << ((52 - e) as u64)) - (1u64 << 52))
            as u64) ==> (mant & (((1u64 << ((52 - e) as u64)) - 1) as u64) == 0 && ((1u64 << 52)
            | mant) >> ((52 - e) as u64) == m)) by (bit_vector);
        let expf: u64 = (1023 + e) as u64;
        assert(expf >= 1023 && expf <= 1023 + 52);
        let k: u64 = (expf - 1023) as u64;
        assert(k == e);
        if n < 0 {
            assert(m == (-(n as int)) as u64);
            assert((-(m as int)) as i64 == n);
        } else {
            assert(m as i64 == n);
        }
    }
}

/// Handles survive the slot encoding: storing a handle in `[0, 2^31)` and
/// loading the slot back yields the same handle. The one exception is the
/// handle `1`, whose encoding is shared with the integer zero and decodes as
/// that integer; it is excluded here.
pub proof fn lemma_slot_roundtrip_ref(h: i64)
    requires
        0 <= h < 0x8000_0000,
        h != 1,
    ensures
        spec_load_slot(spec_store_slot(h, true)) == (h, true),
{
    let lo: u64 = ((h as i32) as u32) as u64;
    let bits: u64 = NAN_HEAD_BITS | lo;
    assert((0 <= h < 0x8000_0000 && h != 1 && lo == ((h as i32) as u32) as u64 && bits
        == 0x7FF8_0000_0000_0000u64 | lo) ==> ((bits >> 32) as u32 == 0x7FF8_0000u32 && bits
        as u32 != 1u32 && ((bits as u32) as i32) as i64 == h)) by (bit_vector);
}

/// How a slab operation fails: the reference does not exist, or it does not
/// name an object.
#[derive(Debug, Clone, Copy, PartialEq, Eq, Structural)]
pub enum JsError {
    NoSuchRef,
    NotAnObject,
}

/// An emulated JS value. A property or array element is an `(i64, bool)`
/// pair: the bool tags whether the `i64` is a slab handle (`true`) or an
/// unboxed integer (`false`), exactly as in the tagged slot encoding.
#[derive(Debug)]
pub enum Value {
    Array(Vec<(i64, bool)>),
    False,
    Int(i32),
    Memory { address: i64, len: i64 },
    NaN,
    Null,
    Object { name: String, values: Vec<(String, (i64, bool))> },
    String(String),
    Bytes(Vec<u8>),
    True,
}

/// The property map an association list stands for; a later entry for the
/// same key would win, but well-formed objects keep their keys unique.
pub open spec fn spec_props_map(props: Seq<(String, (i64, bool))>) -> Map<Seq<char>, (i64, bool)>
    decreases props.len(),
{
    if props.len() == 0 {
        Map::empty()
    } else {
        spec_props_map(props.drop_last()).insert(props.last().0@, props.last().1)
    }
}

/// No two entries share a key.
pub open spec fn spec_unique_keys(props: Seq<(String, (i64, bool))>) -> bool {
    forall|i: int, j: int| 0 <= i < j < props.len() ==> props[i].0@ != props[j].0@
}

/// The name of an object value; empty for anything else.
pub open spec fn spec_obj_name(v: Value) -> Seq<char> {
    match v {
        Value::Object { name, .. } => name@,
        _ => Seq::empty(),
    }
}

/// The property map of an object value; empty for anything else.
pub open spec fn spec_obj_props(v: Value) -> Map<Seq<char>, (i64, bool)> {
    match v {
        Value::Object { values, .. } => spec_props_map(values@),
        _ => Map::empty(),
    }
}

/// Objects keep their property keys unique.
pub open spec fn spec_value_wf(v: Value) -> bool {
    match v {
        Value::Object { values, .. } => spec_unique_keys(values@),
        _ => true,
    }
}

proof fn lemma_props_map_index(props: Seq<(String, (i64, bool))>, i: int)
    requires
        spec_unique_keys(props),
        0 <= i < props.len(),
    ensures
        spec_props_map(props).contains_key(props[i].0@),
        spec_props_map(props)[props[i].0@] == props[i].1,
    decreases props.len(),
{
    if i < props.len() - 1 {
        assert(spec_unique_keys(props.drop_last()));
        lemma_props_map_index(props.drop_last(), i);
    }
}

proof fn lemma_props_map_absent(props: Seq<(String, (i64, bool))>, key: Seq<char>)
    requires
        forall|i: int| 0 <= i < props.len() ==> props[i].0@ != key,
    ensures
        !spec_props_map(props).contains_key(key),
    decreases props.len(),
{
    if props.len() > 0 {
        lemma_props_map_absent(props.drop_last(), key);
    }
}

proof fn lemma_props_map_update(props: Seq<(String, (i64, bool))>, i: int, k2: String, v: (i64, bool))
    requires
        spec_unique_keys(props),
        0 <= i < props.len(),
        k2@ == props[i].0@,
    ensures
        spec_props_map(props.update(i, (k2, v))) == spec_props_map(props).insert(k2@, v),
        spec_unique_keys(props.update(i, (k2, v))),
    decreases props.len(),
{
    let updated = props.update(i, (k2, v));
    if i == props.len() - 1 {
        assert(updated.drop_last() =~= props.drop_last());
        assert(spec_props_map(updated) =~= spec_props_map(props).insert(k2@, v));
    } else {
        assert(updated.drop_last() =~= props.drop_last().update(i, (k2, v)));
        assert(spec_unique_keys(props.drop_last()));
        lemma_props_map_update(props.drop_last(), i, k2, v);
        assert(props.last().0@ != k2@);
        assert(updated.last() == props.last());
        assert(spec_props_map(updated) =~= spec_props_map(props).insert(k2@, v));
    }
}

/// Inserts or overwrites a property in an association list, keeping keys
/// unique; the map it stands for gains exactly this binding.
fn props_insert(props: &mut Vec<(String, (i64, bool))>, key: &String, value: (i64, bool))
    requires
        spec_unique_keys(old(props)@),
    ensures
        spec_unique_keys(final(props)@),
        spec_props_map(final(props)@) == spec_props_map(old(props)@).insert(key@, value),
        final(props)@.len() <= old(props)@.len() + 1,
{
    let n = props.len();
    let mut i: usize = 0;
    while i < n
        invariant
            0 <= i <= n,
            n == props@.len(),
            props@ == old(props)@,
            spec_unique_keys(props@),
            forall|k: int| 0 <= k < i ==> props@[k].0@ != key@,
        decreases n - i,
    {
        if props[i].0 == *key {
            let k2 = key.clone();
            proof {
                lemma_props_map_update(props@, i as int, k2, value);
            }
            props.set(i, (k2, value));
            return ;
        }
        i = i + 1;
    }
    proof {
        lemma_props_map_absent(props@, key@);
    }
    props.push((key.clone(), value));
    proof {
        assert(final(props)@.drop_last() =~= old(props)@);
    }
}

/// Looks a property up in an association list.
fn props_find(props: &Vec<(String, (i64, bool))>, key: &String) -> (r: Option<(i64, bool)>)
    requires
        spec_unique_keys(props@),
    ensures
        r == (if spec_props_map(props@).contains_key(key@) {
            Some(spec_props_map(props@)[key@])
        } else {
            None::<(i64, bool)>
        }),
{
    let n = props.len();
    let mut i: usize = 0;
    while i < n
        invariant
            0 <= i <= n,
            n == props@.len(),
            spec_unique_keys(props@),
            forall|k: int| 0 <= k < i ==> props@[k].0@ != key@,
        decreases n - i,
    {
        if props[i].0 == *key {
            proof {
                lemma_props_map_index(props@, i as int);
            }
            return Some(props[i].1);
        }
        i = i + 1;
    }
    proof {
        lemma_props_map_absent(props@, key@);
    }
    None
}

/// Whether some interned name has these characters.
pub open spec fn spec_has_static(ss: Seq<String>, key: Seq<char>) -> bool {
    exists|i: int| 0 <= i < ss.len() && ss[i]@ == key
}

/// The slab of emulated JS values, with the handles of the interned
/// singletons and of the pre-built error objects.
#[derive(Debug)]
pub struct Js {
    pub slab: Vec<Value>,
    pub static_strings: Vec<String>,
    pub error_not_found: i64,
    pub error_exists: i64,
    pub true_value: i64,
    pub false_value: i64,
    pub null: i64,
    pub global: i64,
}

impl Js {
    /// Every object in the slab keeps its property keys unique.
    pub open spec fn wf(&self) -> bool {
        forall|i: int| 0 <= i < self.slab@.len() ==> spec_value_wf(#[trigger] self.slab@[i])
    }

    /// Whether `r` names an object in the slab.
    pub open spec fn spec_is_object(&self, r: i64) -> bool {
        0 <= r < self.slab@.len() && self.slab@[r as int] is Object
    }

    /// Appends a value; its handle is its (stable) insertion index.
    pub fn slab_add(&mut self, v: Value) -> (r: i64)
        requires
            old(self).slab@.len() < i64::MAX,
        ensures
            final(self).slab@ == old(self).slab@.push(v),
            r == old(self).slab@.len(),
            final(self).static_strings == old(self).static_strings,
            final(self).error_not_found == old(self).error_not_found,
            final(self).error_exists == old(self).error_exists,
            final(self).true_value == old(self).true_value,
            final(self).false_value == old(self).false_value,
            final(self).null == old(self).null,
            final(self).global == old(self).global,
    {
        let r = self.slab.len() as i64;
        self.slab.push(v);
        r
    }

    pub fn slab_get(&self, r: i64) -> (res: Option<&Value>)
        ensures
            0 <= r < self.slab@.len() ==> res is Some && *res.unwrap() == self.slab@[r as int],
            !(0 <= r < self.slab@.len()) ==> res is None,
    {
        let len = self.slab.len();
        if r < 0 || r as u64 >= len as u64 {
            return None;
        }
        let i = r as usize;
        Some(&self.slab[i])
    }

    pub fn slab_get_mut(&mut self, r: i64) -> (res: Option<&mut Value>)
        ensures
            final(self).static_strings == old(self).static_strings,
            final(self).error_not_found == old(self).error_not_found,
            final(self).error_exists == old(self).error_exists,
            final(self).true_value == old(self).true_value,
            final(self).false_value == old(self).false_value,
            final(self).null == old(self).null,
            final(self).global == old(self).global,
            0 <= r < old(self).slab@.len() ==> res is Some && *res.unwrap() == old(
                self,
            ).slab@[r as int] && final(self).slab@ =~= old(self).slab@.update(
                r as int,
                *final(res.unwrap()),
            ),
            !(0 <= r < old(self).slab@.len()) ==> res is None && final(self).slab@ =~= old(
                self,
            ).slab@,
    {
        let len = self.slab.len();
        if r < 0 || r as u64 >= len as u64 {
            return None;
        }
        let i = r as usize;
        Some(&mut self.slab[i])
    }

    /// The name of the object `r` points at, if it is an object.
    pub fn get_object_name(&self, r: i64) -> (res: Option<&String>)
        ensures
            self.spec_is_object(r) ==> res is Some && res.unwrap()@ == spec_obj_name(
                self.slab@[r as int],
            ),
            !self.spec_is_object(r) ==> res is None,
    {
        match self.slab_get(r) {
            Some(v) => match v {
                Value::Object { name, .. } => Some(name),
                _ => None,
            },
            None => None,
        }
    }

    /// Interns a property name.
    fn intern(&mut self, name: &String)
        ensures
            final(self).slab == old(self).slab,
            final(self).error_not_found == old(self).error_not_found,
            final(self).error_exists == old(self).error_exists,
            final(self).true_value == old(self).true_value,
            final(self).false_value == old(self).false_value,
            final(self).null == old(self).null,
            final(self).global == old(self).global,
            spec_has_static(final(self).static_strings@, name@),
            forall|k: Seq<char>|
                spec_has_static(final(self).static_strings@, k) <==> (spec_has_static(
                    old(self).static_strings@,
                    k,
                ) || k == name@),
    {
        let n = self.static_strings.len();
        let mut i: usize = 0;
        while i < n
            invariant
                0 <= i <= n,
                n == self.static_strings@.len(),
                self == old(self),
                forall|k: int| 0 <= k < i ==> self.static_strings@[k]@ != name@,
            decreases n - i,
        {
            if self.static_strings[i] == *name {
                assert(spec_has_static(self.static_strings@, name@));
                return ;
            }
            i = i + 1;
        }
        self.static_strings.push(name.clone());
        proof {
            let ss = final(self).static_strings@;
            assert(ss[ss.len() - 1]@ == name@);
            assert forall|k: Seq<char>|
                spec_has_static(ss, k) <==> (spec_has_static(old(self).static_strings@, k) || k
                    == name@) by {
                if spec_has_static(old(self).static_strings@, k) {
                    let i = choose|i: int|
                        0 <= i < old(self).static_strings@.len() && old(
                            self,
                        ).static_strings@[i]@ == k;
                    assert(ss[i]@ == k);
                }
                if spec_has_static(ss, k) {
                    let i = choose|i: int| 0 <= i < ss.len() && ss[i]@ == k;
                    if i < ss.len() - 1 {
                        assert(old(self).static_strings@[i]@ == k);
                    }
                }
            }
        }
    }

    /// Whether a name has been interned.
    pub fn has_static_string(&self, key: &String) -> (r: bool)
        ensures
            r == spec_has_static(self.static_strings@, key@),
    {
        let n = self.static_strings.len();
        let mut i: usize = 0;
        while i < n
            invariant
                0 <= i <= n,
                n == self.static_strings@.len(),
                forall|k: int| 0 <= k < i ==> self.static_strings@[k]@ != key@,
            decreases n - i,
        {
            if self.static_strings[i] == *key {
                assert(spec_has_static(self.static_strings@, key@));
                return true;
            }
            i = i + 1;
        }
        false
    }

    /// Interns `name` and inserts it as a property of the object `r`.
    pub fn add_object_value(&mut self, r: i64, name: &str, value: (i64, bool)) -> (res: Result<
        (),
        JsError,
    >)
        requires
            old(self).wf(),
        ensures
            final(self).wf(),
            res is Ok <==> old(self).spec_is_object(r),
            res == Err::<(), JsError>(JsError::NoSuchRef) <==> !(0 <= r < old(self).slab@.len()),
            res == Err::<(), JsError>(JsError::NotAnObject) <==> (0 <= r < old(self).slab@.len()
                && !(old(self).slab@[r as int] is Object)),
            final(self).error_not_found == old(self).error_not_found,
            final(self).error_exists == old(self).error_exists,
            final(self).true_value == old(self).true_value,
            final(self).false_value == old(self).false_value,
            final(self).null == old(self).null,
            final(self).global == old(self).global,
            spec_has_static(final(self).static_strings@, name@),
            res is Ok ==> {
                &&& final(self).slab@.len() == old(self).slab@.len()
                &&& forall|i: int|
                    0 <= i < old(self).slab@.len() && i != r ==> final(self).slab@[i] == old(
                        self,
                    ).slab@[i]
                &&& final(self).slab@[r as int] is Object
                &&& spec_obj_name(final(self).slab@[r as int]) == spec_obj_name(
                    old(self).slab@[r as int],
                )
                &&& spec_obj_props(final(self).slab@[r as int]) == spec_obj_props(
                    old(self).slab@[r as int],
                ).insert(name@, value)
            },
            res is Err ==> final(self).slab@ == old(self).slab@,
    {
        let name_s: String = name.to_owned();
        self.intern(&name_s);
        match self.slab_get_mut(r) {
            Some(o) => match o {
                Value::Object { values, .. } => {
                    props_insert(values, &name_s, value);
                    Ok(())
                },
                _ => Err(JsError::NotAnObject),
            },
            None => Err(JsError::NoSuchRef),
        }
    }

    /// Creates an empty object called `name` and links it as the property
    /// `name` of the object `r`; returns the new handle. Fails, changing
    /// nothing, if `r` does not name an object.
    pub fn add_object(&mut self, r: i64, name: &str) -> (res: Result<i64, JsError>)
        requires
            old(self).wf(),
            old(self).slab@.len() < i64::MAX,
        ensures
            final(self).wf(),
            res is Ok <==> old(self).spec_is_object(r),
            res == Err::<i64, JsError>(JsError::NoSuchRef) <==> !(0 <= r < old(
                self,
            ).slab@.len()),
            res == Err::<i64, JsError>(JsError::NotAnObject) <==> (0 <= r < old(
                self,
            ).slab@.len() && !(old(self).slab@[r as int] is Object)),
            res is Err ==> *final(self) == *old(self),
            final(self).error_not_found == old(self).error_not_found,
            final(self).error_exists == old(self).error_exists,
            final(self).true_value == old(self).true_value,
            final(self).false_value == old(self).false_value,
            final(self).null == old(self).null,
            final(self).global == old(self).global,
            res matches Ok(new_r) ==> {
                &&& new_r == old(self).slab@.len()
                &&& final(self).slab@.len() == old(self).slab@.len() + 1
                &&& forall|i: int|
                    0 <= i < old(self).slab@.len() && i != r ==> final(self).slab@[i] == old(
                        self,
                    ).slab@[i]
                &&& final(self).slab@[new_r as int] is Object
                &&& spec_obj_name(final(self).slab@[new_r as int]) == name@
                &&& spec_obj_props(final(self).slab@[new_r as int]) == Map::<
                    Seq<char>,
                    (i64, bool),
                >::empty()
                &&& final(self).slab@[r as int] is Object
                &&& spec_obj_name(final(self).slab@[r as int]) == spec_obj_name(
                    old(self).slab@[r as int],
                )
                &&& spec_obj_props(final(self).slab@[r as int]) == spec_obj_props(
                    old(self).slab@[r as int],
                ).insert(name@, (new_r, true))
            },
    {
        match self.slab_get(r) {
            Some(v) => match v {
                Value::Object { .. } => {},
                _ => {
                    return Err(JsError::NotAnObject);
                },
            },
            None => {
                return Err(JsError::NoSuchRef);
            },
        }
        let new_r = self.slab_add(
            Value::Object { name: name.to_owned(), values: Vec::new() },
        );
        let res = self.add_object_value(r, name, (new_r, true));
        proof {
            assert(res is Ok);
        }
        Ok(new_r)
    }

    /// Creates an array value and links it as the property `name` of the
    /// object `r`; returns the new handle.
    pub fn add_array(&mut self, r: i64, name: &str, args: Vec<(i64, bool)>) -> (res: Result<
        i64,
        JsError,
    >)
        requires
            old(self).wf(),
            old(self).slab@.len() < i64::MAX,
        ensures
            final(self).wf(),
            res is Ok <==> old(self).spec_is_object(r),
            res == Err::<i64, JsError>(JsError::NoSuchRef) <==> !(0 <= r < old(
                self,
            ).slab@.len()),
            res == Err::<i64, JsError>(JsError::NotAnObject) <==> (0 <= r < old(
                self,
            ).slab@.len() && !(old(self).slab@[r as int] is Object)),
            res is Err ==> final(self).slab@ == old(self).slab@ && final(self).static_strings
                == old(self).static_strings,
            final(self).error_not_found == old(self).error_not_found,
            final(self).error_exists == old(self).error_exists,
            final(self).true_value == old(self).true_value,
            final(self).false_value == old(self).false_value,
            final(self).null == old(self).null,
            final(self).global == old(self).global,
            res matches Ok(new_r) ==> {
                &&& new_r == old(self).slab@.len()
                &&& final(self).slab@.len() == old(self).slab@.len() + 1
                &&& forall|i: int|
                    0 <= i < old(self).slab@.len() && i != r ==> final(self).slab@[i] == old(
                        self,
                    ).slab@[i]
                &&& final(self).slab@[new_r as int] matches Value::Array(items) && items@ == args@
                &&& final(self).slab@[r as int] is Object
                &&& spec_obj_name(final(self).slab@[r as int]) == spec_obj_name(
                    old(self).slab@[r as int],
                )
                &&& spec_obj_props(final(self).slab@[r as int]) == spec_obj_props(
                    old(self).slab@[r as int],
                ).insert(name@, (new_r, true))
            },
    {
        match self.slab_get(r) {
            Some(v) => match v {
                Value::Object { .. } => {},
                _ => {
                    return Err(JsError::NotAnObject);
                },
            },
            None => {
                return Err(JsError::NoSuchRef);
            },
        }
        let new_r = self.slab_add(Value::Array(args));
        let res = self.add_object_value(r, name, (new_r, true));
        proof {
            assert(res is Ok);
        }
        Ok(new_r)
    }

    /// The length of the array `target` points at.
    pub fn value_length(&self, target: i64) -> (res: Option<i64>)
        ensures
            res == (if 0 <= target < self.slab@.len() && self.slab@[target as int] is Array {
                Some(self.slab@[target as int]->Array_0@.len() as i64)
            } else {
                None::<i64>
            }),
    {
        match self.slab_get(target) {
            Some(v) => match v {
                Value::Array(rs) => Some(rs.len() as i64),
                _ => None,
            },
            None => None,
        }
    }

    /// The element `i` of the array `target` points at.
    pub fn reflect_get_index(&self, target: i64, i: i64) -> (res: Option<(i64, bool)>)
        ensures
            res == (if 0 <= target < self.slab@.len() && self.slab@[target as int] is Array && 0
                <= i < self.slab@[target as int]->Array_0@.len() {
                Some(self.slab@[target as int]->Array_0@[i as int])
            } else {
                None::<(i64, bool)>
            }),
    {
        match self.slab_get(target) {
            Some(v) => match v {
                Value::Array(items) => {
                    if i < 0 || i as u64 >= items.len() as u64 {
                        return None;
                    }
                    let iu = i as usize;
                    Some(items[iu])
                },
                _ => None,
            },
            None => None,
        }
    }

    /// The property `property_key` of the object `target` points at.
    pub fn reflect_get(&self, target: i64, property_key: &str) -> (res: Option<(i64, bool)>)
        requires
            self.wf(),
        ensures
            res == (if self.spec_is_object(target) && spec_obj_props(
                self.slab@[target as int],
            ).contains_key(property_key@) {
                Some(spec_obj_props(self.slab@[target as int])[property_key@])
            } else {
                None::<(i64, bool)>
            }),
    {
        let key = property_key.to_owned();
        match self.slab_get(target) {
            Some(v) => match v {
                Value::Object { values, .. } => props_find(values, &key),
                _ => None,
            },
            None => None,
        }
    }

    /// Sets the property `property_key` of the object `target` to the
    /// handle `value`.
    pub fn reflect_set(&mut self, target: i64, property_key: &str, value: i64) -> (res: Result<
        (),
        JsError,
    >)
        requires
            old(self).wf(),
        ensures
            final(self).wf(),
            res is Ok <==> old(self).spec_is_object(target),
            final(self).error_not_found == old(self).error_not_found,
            final(self).error_exists == old(self).error_exists,
            final(self).true_value == old(self).true_value,
            final(self).false_value == old(self).false_value,
            final(self).null == old(self).null,
            final(self).global == old(self).global,
            res is Ok ==> {
                &&& final(self).slab@.len() == old(self).slab@.len()
                &&& forall|i: int|
                    0 <= i < old(self).slab@.len() && i != target ==> final(self).slab@[i] == old(
                        self,
                    ).slab@[i]
                &&& final(self).slab@[target as int] is Object
                &&& spec_obj_name(final(self).slab@[target as int]) == spec_obj_name(
                    old(self).slab@[target as int],
                )
                &&& spec_obj_props(final(self).slab@[target as int]) == spec_obj_props(
                    old(self).slab@[target as int],
                ).insert(property_key@, (value, true))
            },
            res is Err ==> final(self).slab@ == old(self).slab@,
    {
        let key = property_key.to_owned();
        match self.slab_get_mut(target) {
            Some(o) => match o {
                Value::Object { values, .. } => {
                    props_insert(values, &key, (value, true));
                    Ok(())
                },
                _ => Err(JsError::NotAnObject),
            },
            None => Err(JsError::NoSuchRef),
        }
    }

    /// Recognizes the constructible classes: `Uint8Array` builds a typed
    /// view into guest memory from the second and third arguments, `Date`
    /// returns the target itself, and `net_listener` builds a fresh object
    /// carrying a `register` method. Anything else fails.
    pub fn reflect_construct(&mut self, target: i64, argument_list: Vec<(i64, bool)>) -> (res:
        Option<(i64, bool)>)
        requires
            old(self).wf(),
            old(self).slab@.len() + 2 < i64::MAX,
        ensures
            final(self).wf(),
            final(self).error_not_found == old(self).error_not_found,
            final(self).error_exists == old(self).error_exists,
            final(self).true_value == old(self).true_value,
            final(self).false_value == old(self).false_value,
            final(self).null == old(self).null,
            final(self).global == old(self).global,
            !old(self).spec_is_object(target) ==> (res is None && final(self).slab@
                == old(self).slab@),
            old(self).spec_is_object(target) ==> {
                let name = spec_obj_name(old(self).slab@[target as int]);
                &&& (name == "Uint8Array"@ && argument_list@.len() >= 3) ==> res == Some(
                    ((old(self).slab@.len() as i64), true),
                ) && final(self).slab@ == old(self).slab@.push(
                    (Value::Memory { address: argument_list@[1].0, len: argument_list@[2].0 }),
                )
                &&& (name == "Uint8Array"@ && argument_list@.len() < 3) ==> (res is None
                    && final(self).slab@ == old(self).slab@)
                &&& name == "Date"@ ==> (res == Some((target, true)) && final(self).slab@
                    == old(self).slab@)
                &&& name == "net_listener"@ ==> {
                    let nl = old(self).slab@.len() as i64;
                    &&& res == Some((nl, true))
                    &&& final(self).slab@.len() == old(self).slab@.len() + 2
                    &&& forall|i: int|
                        0 <= i < old(self).slab@.len() ==> final(self).slab@[i]
                            == old(self).slab@[i]
                    &&& final(self).slab@[nl as int] is Object
                    &&& spec_obj_name(final(self).slab@[nl as int]) == "net_listener"@
                    &&& spec_obj_props(final(self).slab@[nl as int]).contains_key("register"@)
                }
                &&& (name != "Uint8Array"@ && name != "Date"@ && name != "net_listener"@) ==> res
                    is None && final(self).slab@ == old(self).slab@
            },
    {
        proof {
            reveal_strlit("Uint8Array");
            reveal_strlit("Date");
            reveal_strlit("net_listener");
            reveal_strlit("register");
            assert("Uint8Array"@.len() == 10 && "Date"@.len() == 4 && "net_listener"@.len() == 12
                && "register"@.len() == 8);
            assert("Uint8Array"@ != "Date"@ && "Uint8Array"@ != "net_listener"@ && "Date"@
                != "net_listener"@ && "register"@ != "net_listener"@);
        }
        let name: String = match self.get_object_name(target) {
            Some(n) => n.clone(),
            None => {
                return None;
            },
        };
        if name == "Uint8Array".to_owned() {
            if argument_list.len() < 3 {
                return None;
            }
            let address = argument_list[1].0;
            let len = argument_list[2].0;
            Some((self.slab_add(Value::Memory { address, len }), true))
        } else if name == "Date".to_owned() {
            Some((target, true))
        } else if name == "net_listener".to_owned() {
            let nl = self.slab_add(
                Value::Object { name: "net_listener".to_owned(), values: Vec::new() },
            );
            let reg = self.add_object(nl, "register");
            proof {
                assert(reg is Ok);
            }
            Some((nl, true))
        } else {
            None
        }
    }

    /// Builds an `fstat` object for a file whose directory bit is `is_dir`,
    /// carrying an `isDirectory` method and an `is_dir` property that points
    /// at the interned true or false value.
    pub fn add_metadata(&mut self, is_dir: bool) -> (r: i64)
        requires
            old(self).wf(),
            old(self).slab@.len() + 2 < i64::MAX,
        ensures
            final(self).wf(),
            final(self).error_not_found == old(self).error_not_found,
            final(self).error_exists == old(self).error_exists,
            final(self).true_value == old(self).true_value,
            final(self).false_value == old(self).false_value,
            final(self).null == old(self).null,
            final(self).global == old(self).global,
            r == old(self).slab@.len(),
            final(self).slab@.len() == old(self).slab@.len() + 2,
            forall|i: int|
                0 <= i < old(self).slab@.len() ==> final(self).slab@[i] == old(self).slab@[i],
            final(self).slab@[r as int] is Object,
            spec_obj_name(final(self).slab@[r as int]) == "fstat"@,
            spec_obj_props(final(self).slab@[r as int]).contains_key("is_dir"@),
            spec_obj_props(final(self).slab@[r as int])["is_dir"@] == (
                if is_dir {
                    old(self).true_value
                } else {
                    old(self).false_value
                },
                true,
            ),
    {
        let is_dir_handle = if is_dir {
            self.true_value
        } else {
            self.false_value
        };
        let fstat = self.slab_add(Value::Object { name: "fstat".to_owned(), values: Vec::new() });
        let isd = self.add_object(fstat, "isDirectory");
        proof {
            assert(isd is Ok);
        }
        let set = self.add_object_value(fstat, "is_dir", (is_dir_handle, true));
        proof {
            reveal_strlit("isDirectory");
            reveal_strlit("is_dir");
            assert("isDirectory"@.len() == 11 && "is_dir"@.len() == 6);
            assert("isDirectory"@ != "is_dir"@);
            assert(set is Ok);
        }
        fstat
    }

    /// Builds the slab the guest assumes at startup: the interned
    /// singletons at handles 0 to 4 (`NaN`, `0`, `null`, `true`, `false`),
    /// the `global`, `mem` and `this` objects at 5 to 7, the `fs`, `crypto`
    /// and `wasabi` namespaces with their methods and open-mode constants,
    /// the typed-array and `Date` classes, and the interned `ENOENT` and
    /// `EEXIST` error objects.
    pub fn new() -> (res: Result<Js, JsError>)
        ensures
            res is Ok,
            res matches Ok(js) ==> {
                &&& js.wf()
                &&& js.slab@.len() == 41
                &&& js.slab@[0] is NaN
                &&& js.slab@[1] matches Value::Int(z) && z == 0
                &&& js.slab@[2] is Null
                &&& js.slab@[3] is True
                &&& js.slab@[4] is False
                &&& js.true_value == 3
                &&& js.false_value == 4
                &&& js.null == 2
                &&& js.global == 5
                &&& js.error_not_found == 37
                &&& js.error_exists == 39
                &&& js.spec_is_object(5) && spec_obj_name(js.slab@[5]) == "global"@
                &&& js.spec_is_object(6) && spec_obj_name(js.slab@[6]) == "mem"@
                &&& js.spec_is_object(7) && spec_obj_name(js.slab@[7]) == "this"@
                &&& spec_obj_props(js.slab@[5]).contains_key("fs"@) && spec_obj_props(
                    js.slab@[5],
                )["fs"@] == (9i64, true)
                &&& spec_obj_props(js.slab@[7]).contains_key("_pendingEvent"@) && spec_obj_props(
                    js.slab@[7],
                )["_pendingEvent"@] == (2i64, true)
                &&& js.spec_is_object(9) && spec_obj_name(js.slab@[9]) == "fs"@
                &&& js.spec_is_object(37)
                &&& js.spec_is_object(39)
            },
    {
        proof {
            reveal_strlit("fs");
            reveal_strlit("crypto");
            reveal_strlit("Object");
            reveal_strlit("Array");
            reveal_strlit("Uint8Array");
            reveal_strlit("Int16Array");
            reveal_strlit("Int32Array");
            reveal_strlit("Int8Array");
            reveal_strlit("Uint16Array");
            reveal_strlit("Uint32Array");
            reveal_strlit("Float32Array");
            reveal_strlit("Float64Array");
            reveal_strlit("process");
            reveal_strlit("net_listener");
            reveal_strlit("wasabi");
            reveal_strlit("Date");
            reveal_strlit("_pendingEvent");
            reveal_strlit("_makeFuncWrapper");
            assert("fs"@.len() == 2 && "crypto"@.len() == 6 && "Object"@.len() == 6
                && "Array"@.len() == 5 && "Uint8Array"@.len() == 10 && "Int16Array"@.len() == 10
                && "Int32Array"@.len() == 10 && "Int8Array"@.len() == 9 && "Uint16Array"@.len()
                == 11 && "Uint32Array"@.len() == 11 && "Float32Array"@.len() == 12
                && "Float64Array"@.len() == 12 && "process"@.len() == 7 && "net_listener"@.len()
                == 12 && "wasabi"@.len() == 6 && "Date"@.len() == 4);
            assert("fs"@ != "crypto"@ && "fs"@ != "Object"@ && "fs"@ != "Array"@ && "fs"@
                != "Uint8Array"@ && "fs"@ != "Int16Array"@ && "fs"@ != "Int32Array"@ && "fs"@
                != "Int8Array"@ && "fs"@ != "Uint16Array"@ && "fs"@ != "Uint32Array"@ && "fs"@
                != "Float32Array"@ && "fs"@ != "Float64Array"@ && "fs"@ != "process"@ && "fs"@
                != "net_listener"@ && "fs"@ != "wasabi"@ && "fs"@ != "Date"@);
            assert("_pendingEvent"@.len() == 13 && "_makeFuncWrapper"@.len() == 16);
            assert("_pendingEvent"@ != "_makeFuncWrapper"@);
        }
        let mut js = Js {
            slab: Vec::new(),
            static_strings: Vec::new(),
            error_not_found: 2,
            error_exists: 2,
            true_value: 2,
            false_value: 2,
            null: 2,
            global: 2,
        };
        js.slab_add(Value::NaN);
        js.slab_add(Value::Int(0));
        js.slab_add(Value::Null);
        js.true_value = js.slab_add(Value::True);
        js.false_value = js.slab_add(Value::False);
        let global = js.slab_add(Value::Object { name: "global".to_owned(), values: Vec::new() });
        let mem = js.slab_add(Value::Object { name: "mem".to_owned(), values: Vec::new() });
        let this = js.slab_add(Value::Object { name: "this".to_owned(), values: Vec::new() });

        js.add_object(mem, "buffer").unwrap();

        let fs = js.add_object(global, "fs").unwrap();
        js.add_object(fs, "write").unwrap();
        js.add_object(fs, "open").unwrap();
        js.add_object(fs, "stat").unwrap();
        js.add_object(fs, "fstat").unwrap();
        js.add_object(fs, "read").unwrap();
        js.add_object(fs, "fsync").unwrap();
        js.add_object(fs, "isDirectory").unwrap();

        let constants = js.add_object(fs, "constants").unwrap();
        js.add_object_value(constants, "O_WRONLY", (1, false)).unwrap();
        js.add_object_value(constants, "O_RDWR", (2, false)).unwrap();
        js.add_object_value(constants, "O_CREAT", (64, false)).unwrap();
        js.add_object_value(constants, "O_TRUNC", (512, false)).unwrap();
        js.add_object_value(constants, "O_APPEND", (1024, false)).unwrap();
        js.add_object_value(constants, "O_EXCL", (128, false)).unwrap();

        let crypto = js.add_object(global, "crypto").unwrap();
        js.add_object(crypto, "getRandomValues").unwrap();

        js.add_object_value(this, "_pendingEvent", (2, true)).unwrap();
        js.add_object(this, "_makeFuncWrapper").unwrap();

        js.add_object(global, "Object").unwrap();
        js.add_object(global, "Array").unwrap();
        js.add_object(global, "Uint8Array").unwrap();
        js.add_object(global, "Int16Array").unwrap();
        js.add_object(global, "Int32Array").unwrap();
        js.add_object(global, "Int8Array").unwrap();
        js.add_object(global, "Uint16Array").unwrap();
        js.add_object(global, "Uint32Array").unwrap();
        js.add_object(global, "Float32Array").unwrap();
        js.add_object(global, "Float64Array").unwrap();
        js.add_object(global, "process").unwrap();
        js.add_object(global, "net_listener").unwrap();

        let wsbi = js.add_object(global, "wasabi").unwrap();
        js.add_object(wsbi, "lookup_ip").unwrap();

        let date = js.add_object(global, "Date").unwrap();
        js.add_object(date, "getTimezoneOffset").unwrap();

        let enoent = js.slab_add(Value::Object { name: "ENOENT".to_owned(), values: Vec::new() });
        let code = js.slab_add(Value::String("ENOENT".to_owned()));
        js.add_object_value(enoent, "code", (code, true)).unwrap();
        js.error_not_found = enoent;

        let eexist = js.slab_add(Value::Object { name: "EEXIST".to_owned(), values: Vec::new() });
        let code2 = js.slab_add(Value::String("EEXIST".to_owned()));
        js.add_object_value(eexist, "code", (code2, true)).unwrap();
        js.error_exists = eexist;

        js.global = global;

        let is_directory = "is_directory".to_owned();
        js.intern(&is_directory);

        Ok(js)
    }
}

} // verus!
