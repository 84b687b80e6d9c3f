//! Bounds-checked typed access to the guest's linear memory.
//!
//! The guest addresses its memory by byte offsets; every multi-byte value is
//! little-endian. The host owns a byte buffer standing for the current
//! extent of the linear memory; an access outside it is the guest violating
//! its ABI and is reported as `InvalidAddress`.

use vstd::prelude::*;

use crate::bytes::{
    as_i32_le, as_i64_le, i32_as_u8_le, i64_as_u8_le, spec_i32_le_bytes, spec_i32_of_le,
    spec_i64_le_bytes, spec_i64_of_le, spec_u32_le_bytes, u32_as_u8_le,
};

verus! {

/// How a memory access fails.
#[derive(Debug, Clone, Copy, PartialEq, Eq, Structural)]
pub enum MemError {
    /// The requested range lies outside the current linear-memory extent.
    InvalidAddress,
    /// The requested bytes are not valid UTF-8 where a string was expected.
    InvalidString,
}

/// The guest's linear memory, as a host-owned byte buffer.
#[derive(Debug)]
pub struct Mem {
    bytes: Vec<u8>,
}

impl View for Mem {
    type V = Seq<u8>;

    closed spec fn view(&self) -> Seq<u8> {
        self.bytes@
    }
}

/// The `i32` stored little-endian at offset `sp` of `m`.
pub open spec fn spec_get_i32(m: Seq<u8>, sp: int) -> i32 {
    spec_i32_of_le(m[sp], m[sp + 1], m[sp + 2], m[sp + 3])
}

/// The `i64` stored little-endian at offset `sp` of `m`.
pub open spec fn spec_get_i64(m: Seq<u8>, sp: int) -> i64 {
    spec_i64_of_le(
        m[sp],
        m[sp + 1],
        m[sp + 2],
        m[sp + 3],
        m[sp + 4],
        m[sp + 5],
        m[sp + 6],
        m[sp + 7],
    )
}

/// `m` with the `n` bytes at `addr` replaced by `data` (of length `n`).
pub open spec fn spec_splice(m: Seq<u8>, addr: int, data: Seq<u8>) -> Seq<u8> {
    Seq::new(m.len(), |i: int| if addr <= i < addr + data.len() { data[i - addr] } else { m[i] })
}

/// Whether the string descriptor `{ptr at a, len at a + 8}` lies in the
/// memory and points at readable, valid UTF-8 bytes.
pub open spec fn spec_string_ok(m: Seq<u8>, a: int) -> bool {
    let addr = spec_get_i32(m, a) as int;
    let len = spec_get_i32(m, a + 8) as int;
    &&& a + 8 <= i32::MAX
    &&& 0 <= a && a + 16 <= m.len()
    &&& 0 <= addr && 0 <= len && addr + len <= m.len()
    &&& vstd::utf8::valid_utf8(m.subrange(addr, addr + len))
}

/// The characters the string descriptor at `a` holds.
pub open spec fn spec_string_at(m: Seq<u8>, a: int) -> Seq<char> {
    let addr = spec_get_i32(m, a) as int;
    let len = spec_get_i32(m, a + 8) as int;
    vstd::utf8::decode_utf8(m.subrange(addr, addr + len))
}

impl Mem {
    /// A memory with no bytes at all; every access to it fails.
    pub fn new() -> (r: Mem)
        ensures
            r@ == Seq::<u8>::empty(),
    {
        Mem { bytes: Vec::new() }
    }

    /// A zero-filled memory of `len` bytes.
    pub fn with_len(len: usize) -> (r: Mem)
        ensures
            r@.len() == len,
            forall|i: int| 0 <= i < len ==> r@[i] == 0u8,
    {
        Mem { bytes: vec![0u8; len] }
    }

    /// A memory holding exactly the given bytes.
    pub fn from_bytes(bytes: Vec<u8>) -> (r: Mem)
        ensures
            r@ == bytes@,
    {
        Mem { bytes }
    }

    /// The current extent of the memory in bytes.
    pub fn len(&self) -> (r: usize)
        ensures
            r == self@.len(),
    {
        self.bytes.len()
    }

    /// Whether `[sp, sp + n)` lies inside the memory.
    pub open spec fn in_bounds(&self, sp: int, n: int) -> bool {
        0 <= sp && sp + n <= self@.len()
    }

    /// Reads the `i32` at offset `sp`. The ABI reserves a full 8-byte slot
    /// for it, so the whole slot must be in bounds.
    pub fn get_i32(&self, sp: i32) -> (r: Result<i32, MemError>)
        ensures
            r is Ok <==> self.in_bounds(sp as int, 8),
            r matches Ok(v) ==> v == spec_get_i32(self@, sp as int),
    {
        if sp < 0 {
            return Err(MemError::InvalidAddress);
        }
        let spu = sp as usize;
        if spu > usize::MAX - 8 || spu + 8 > self.bytes.len() {
            return Err(MemError::InvalidAddress);
        }
        let s = vstd::slice::slice_subrange(self.bytes.as_slice(), spu, spu + 8);
        Ok(as_i32_le(s))
    }

    /// Reads the `i64` at offset `sp`.
    pub fn get_i64(&self, sp: i32) -> (r: Result<i64, MemError>)
        ensures
            r is Ok <==> self.in_bounds(sp as int, 8),
            r matches Ok(v) ==> v == spec_get_i64(self@, sp as int),
    {
        if sp < 0 {
            return Err(MemError::InvalidAddress);
        }
        let spu = sp as usize;
        if spu > usize::MAX - 8 || spu + 8 > self.bytes.len() {
            return Err(MemError::InvalidAddress);
        }
        let s = vstd::slice::slice_subrange(self.bytes.as_slice(), spu, spu + 8);
        Ok(as_i64_le(s))
    }

    /// Copies `data` into the memory at `addr`; everything else is unchanged.
    pub fn write_bytes(&mut self, addr: usize, data: &[u8]) -> (r: Result<(), MemError>)
        ensures
            r is Ok <==> old(self).in_bounds(addr as int, data@.len() as int),
            r is Ok ==> final(self)@ == spec_splice(old(self)@, addr as int, data@),
            r is Err ==> final(self)@ == old(self)@,
    {
        let n = data.len();
        if n > self.bytes.len() || addr > self.bytes.len() - n {
            return Err(MemError::InvalidAddress);
        }
        let mut k: usize = 0;
        while k < n
            invariant
                0 <= k <= n,
                n == data@.len(),
                addr + n <= usize::MAX,
                addr + n <= self.bytes@.len(),
                self.bytes@.len() == old(self)@.len(),
                forall|i: int|
                    0 <= i < self.bytes@.len() ==> self.bytes@[i] == (if addr <= i < addr + k {
                        data@[i - addr]
                    } else {
                        old(self)@[i]
                    }),
            decreases n - k,
        {
            self.bytes.set(addr + k, data[k]);
            k = k + 1;
        }
        proof {
            assert(self.bytes@ =~= spec_splice(old(self)@, addr as int, data@));
        }
        Ok(())
    }

    /// Reads `len` bytes starting at `addr`.
    pub fn read_bytes(&self, addr: usize, len: usize) -> (r: Result<Vec<u8>, MemError>)
        ensures
            r is Ok <==> self.in_bounds(addr as int, len as int),
            r matches Ok(v) ==> v@ == self@.subrange(addr as int, addr + len),
    {
        if len > self.bytes.len() || addr > self.bytes.len() - len {
            return Err(MemError::InvalidAddress);
        }
        let mut out: Vec<u8> = Vec::new();
        let mut k: usize = 0;
        while k < len
            invariant
                0 <= k <= len,
                addr + len <= usize::MAX,
                addr + len <= self.bytes@.len(),
                out@.len() == k,
                forall|i: int| 0 <= i < k ==> out@[i] == self.bytes@[addr + i],
            decreases len - k,
        {
            out.push(self.bytes[addr + k]);
            k = k + 1;
        }
        proof {
            assert(out@ =~= self@.subrange(addr as int, addr + len));
        }
        Ok(out)
    }

    /// Writes `num` as four little-endian bytes at offset `sp`.
    pub fn set_i32(&mut self, sp: i32, num: i32) -> (r: Result<(), MemError>)
        ensures
            r is Ok <==> old(self).in_bounds(sp as int, 4),
            r is Ok ==> final(self)@ == spec_splice(old(self)@, sp as int, spec_i32_le_bytes(num)),
            r is Err ==> final(self)@ == old(self)@,
    {
        if sp < 0 {
            return Err(MemError::InvalidAddress);
        }
        let b = i32_as_u8_le(num);
        self.write_bytes(sp as usize, b.as_slice())
    }

    /// Writes `num` as four little-endian bytes at offset `sp`.
    pub fn set_u32(&mut self, sp: i32, num: u32) -> (r: Result<(), MemError>)
        ensures
            r is Ok <==> old(self).in_bounds(sp as int, 4),
            r is Ok ==> final(self)@ == spec_splice(old(self)@, sp as int, spec_u32_le_bytes(num)),
            r is Err ==> final(self)@ == old(self)@,
    {
        if sp < 0 {
            return Err(MemError::InvalidAddress);
        }
        let b = u32_as_u8_le(num);
        self.write_bytes(sp as usize, b.as_slice())
    }

    /// Writes `num` as eight little-endian bytes at offset `sp`.
    pub fn set_i64(&mut self, sp: i32, num: i64) -> (r: Result<(), MemError>)
        ensures
            r is Ok <==> old(self).in_bounds(sp as int, 8),
            r is Ok ==> final(self)@ == spec_splice(old(self)@, sp as int, spec_i64_le_bytes(num)),
            r is Err ==> final(self)@ == old(self)@,
    {
        if sp < 0 {
            return Err(MemError::InvalidAddress);
        }
        let b = i64_as_u8_le(num);
        self.write_bytes(sp as usize, b.as_slice())
    }

    /// Writes a boolean as the single byte `0x01` or `0x00` at `addr`.
    pub fn set_bool(&mut self, addr: i32, value: bool) -> (r: Result<(), MemError>)
        ensures
            r is Ok <==> old(self).in_bounds(addr as int, 1),
            r is Ok ==> final(self)@ == spec_splice(
                old(self)@,
                addr as int,
                seq![if value { 1u8 } else { 0u8 }],
            ),
            r is Err ==> final(self)@ == old(self)@,
    {
        if addr < 0 {
            return Err(MemError::InvalidAddress);
        }
        let val: u8 = if value {
            1
        } else {
            0
        };
        let b = [val];
        let r = self.write_bytes(addr as usize, b.as_slice());
        proof {
            assert(b@ =~= seq![if value { 1u8 } else { 0u8 }]);
        }
        r
    }

    /// Reads the byte-slice descriptor `{ptr at sp, len at sp + 8}` and
    /// returns a copy of the bytes it points at.
    pub fn get_bytes(&self, sp: i32) -> (r: Result<Vec<u8>, MemError>)
        ensures
            r matches Ok(v) ==> {
                let addr = spec_get_i32(self@, sp as int) as int;
                let len = spec_get_i32(self@, sp as int + 8) as int;
                &&& sp as int + 8 <= i32::MAX
                &&& self.in_bounds(sp as int, 16)
                &&& 0 <= addr && 0 <= len && addr + len <= self@.len()
                &&& v@ == self@.subrange(addr, addr + len)
            },
            r is Err ==> !(sp as int + 8 <= i32::MAX && self.in_bounds(sp as int, 16) && 0
                <= spec_get_i32(self@, sp as int) as int && 0 <= spec_get_i32(
                self@,
                sp as int + 8,
            ) as int && spec_get_i32(self@, sp as int) as int + spec_get_i32(
                self@,
                sp as int + 8,
            ) as int <= self@.len()),
    {
        if sp > i32::MAX - 8 {
            return Err(MemError::InvalidAddress);
        }
        let addr = self.get_i32(sp)?;
        let len = self.get_i32(sp + 8)?;
        if addr < 0 || len < 0 {
            return Err(MemError::InvalidAddress);
        }
        self.read_bytes(addr as usize, len as usize)
    }

    /// Reads the string descriptor at `sp` and decodes the bytes as UTF-8.
    pub fn get_string(&self, sp: i32) -> (r: Result<String, MemError>)
        ensures
            r is Ok <==> spec_string_ok(self@, sp as int),
            r matches Ok(s) ==> s@ == spec_string_at(self@, sp as int),
    {
        let b = self.get_bytes(sp)?;
        match string_from_utf8(b) {
            Some(s) => Ok(s),
            None => Err(MemError::InvalidString),
        }
    }
}

/// Relies on `String::from_utf8`: it succeeds exactly on valid UTF-8 and
/// returns the decoded character sequence.
#[verifier::external_body]
fn string_from_utf8(v: Vec<u8>) -> (r: Option<String>)
    ensures
        r is Some <==> vstd::utf8::valid_utf8(v@),
        r matches Some(s) ==> s@ == vstd::utf8::decode_utf8(v@),
{
    match String::from_utf8(v) {
        Ok(s) => Some(s),
        Err(_) => None,
    }
}

/// Writing an `i32` at an in-bounds offset and reading the slot back yields
/// the same value.
pub proof fn lemma_i32_roundtrip(m: Seq<u8>, sp: int, num: i32)
    requires
        0 <= sp,
        sp + 8 <= m.len(),
    ensures
        spec_get_i32(spec_splice(m, sp, spec_i32_le_bytes(num)), sp) == num,
{
    crate::bytes::lemma_i32_le_roundtrip(num);
}

/// Writing an `i64` at an in-bounds offset and reading the slot back yields
/// the same value.
pub proof fn lemma_i64_roundtrip(m: Seq<u8>, sp: int, num: i64)
    requires
        0 <= sp,
        sp + 8 <= m.len(),
    ensures
        spec_get_i64(spec_splice(m, sp, spec_i64_le_bytes(num)), sp) == num,
{
    crate::bytes::lemma_i64_le_roundtrip(num);
}

} // verus!
