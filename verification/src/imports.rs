//! The host imports the guest calls, each over a stack pointer into its
//! linear memory: arguments are read from the 8-byte slots at `sp + 8`,
//! `sp + 16`, ..., results are written to the slots after them. Failure
//! means the guest violated its ABI; the caller treats it as a fatal trap.

use vstd::prelude::*;

use crate::bytes::{spec_i32_le_bytes, spec_u64_le_bytes};
use crate::io::IoRequest;
use crate::js::{spec_obj_name, spec_store_slot, Value};
use crate::mem::{spec_get_i32, spec_get_i64, spec_splice, spec_string_at, spec_string_ok};
use crate::shared_state::{spec_slice_at, spec_slice_ok, spec_slot_at, HostError, SharedState};

verus! {

/// The eight slot bytes a stored value pair occupies.
pub open spec fn spec_slot_bytes(v: (i64, bool)) -> Seq<u8> {
    spec_u64_le_bytes(spec_store_slot(v.0, v.1))
}


/// Whether all the slots `valueCall` touches are readable and writable and
/// the named method resolves: target slot, interned method name, argument
/// descriptor, result slot and success byte.
pub open spec fn spec_call_frame_ok(s: SharedState, sp: int) -> bool {
    let tgt = spec_slot_at(s.mem@, sp + 8).0;
    let key = spec_string_at(s.mem@, sp + 16);
    &&& s.mem.in_bounds(sp + 8, 8)
    &&& spec_string_ok(s.mem@, sp + 16)
    &&& crate::js::spec_has_static(s.js.static_strings@, key)
    &&& s.js.spec_is_object(tgt)
    &&& crate::js::spec_obj_props(s.js.slab@[tgt as int]).contains_key(key)
    &&& s.js.spec_is_object(spec_call_method(s, sp))
    &&& spec_slice_ok(s.mem@, sp + 32)
    &&& s.mem.in_bounds(sp + 56, 8)
    &&& s.mem.in_bounds(sp + 64, 1)
}

/// The handle of the method `valueCall` resolves: the property named at
/// `sp + 16` of the object in the slot at `sp + 8`.
pub open spec fn spec_call_method(s: SharedState, sp: int) -> i64 {
    let tgt = spec_slot_at(s.mem@, sp + 8).0;
    let key = spec_string_at(s.mem@, sp + 16);
    crate::js::spec_obj_props(s.js.slab@[tgt as int])[key].0
}

impl SharedState {
    /// Reads the property-name string at `sp` and checks it is interned.
    pub fn get_static_string(&self, sp: i32) -> (r: Result<String, HostError>)
        ensures
            r is Ok <==> (spec_string_ok(self.mem@, sp as int) && crate::js::spec_has_static(
                self.js.static_strings@,
                spec_string_at(self.mem@, sp as int),
            )),
            r matches Ok(s) ==> s@ == spec_string_at(self.mem@, sp as int)
                && crate::js::spec_has_static(self.js.static_strings@, s@),
    {
        let s = match self.mem.get_string(sp) {
            Ok(s) => s,
            Err(e) => {
                return Err(HostError::from_mem(e));
            },
        };
        if self.js.has_static_string(&s) {
            Ok(s)
        } else {
            Err(HostError::TypeMismatch)
        }
    }

    /// `runtime.scheduleTimeoutEvent`: reads a millisecond count from
    /// `sp + 8`, schedules a timeout, and writes its id to `sp + 16`.
    pub fn schedule_timeout_event(&mut self, sp: i32) -> (r: Result<(), HostError>)
        requires
            old(self).wf(),
            old(self).timeout_heap.state@.len() < 0x7FFF_FFFF,
            sp <= i32::MAX - 16,
        ensures
            final(self).wf(),
            r is Ok <==> old(self).mem.in_bounds(sp as int + 8, 8) && old(self).mem.in_bounds(
                sp as int + 16,
                4,
            ),
            r is Ok ==> ({
                let id = crate::timeout_heap::spec_first_free(old(self).timeout_heap.state@, 0);
                &&& final(self).timeout_heap.entries@.len() == old(self).timeout_heap.entries@.len() + 1
                &&& final(self).timeout_heap.entries@.last().id == id
                &&& final(self).mem@ == spec_splice(
                    old(self).mem@,
                    sp as int + 16,
                    spec_i32_le_bytes(id as i32),
                )
            }),
            r is Err ==> *final(self) == *old(self),
            final(self).js == old(self).js,
            final(self).call_queue == old(self).call_queue,
            final(self).exited == old(self).exited,
    {
        let count = match self.mem.get_i64(sp + 8) {
            Ok(v) => v,
            Err(_) => {
                return Err(HostError::InvalidAddress);
            },
        };
        if sp + 16 < 0 || !(((sp + 16) as usize) < usize::MAX && self.mem.len() >= 4 && ((sp + 16)
            as u64) <= self.mem.len() as u64 - 4) {
            return Err(HostError::InvalidAddress);
        }
        let id = self.timeout_heap.add(count);
        let w = self.mem.set_i32(sp + 16, id);
        proof {
            assert(w is Ok);
        }
        Ok(())
    }

    /// `runtime.clearTimeoutEvent`: reads a timeout id from `sp + 8` and
    /// cancels it.
    pub fn clear_timeout_event(&mut self, sp: i32) -> (r: Result<(), HostError>)
        requires
            old(self).wf(),
            sp <= i32::MAX - 8,
        ensures
            final(self).wf(),
            r is Ok <==> old(self).mem.in_bounds(sp as int + 8, 8),
            r is Ok ==> ({
                let id = spec_get_i32(old(self).mem@, sp as int + 8);
                (0 <= id < old(self).timeout_heap.state@.len()
                    && old(self).timeout_heap.state@[id as int]
                    != crate::timeout_heap::IdState::Free) ==> final(self).timeout_heap.state@[
                    id as int
                ] != crate::timeout_heap::IdState::Live
            }),
            final(self).timeout_heap.entries == old(self).timeout_heap.entries,
            final(self).mem@ == old(self).mem@,
            final(self).js == old(self).js,
            final(self).call_queue == old(self).call_queue,
            final(self).exited == old(self).exited,
    {
        let id = match self.mem.get_i32(sp + 8) {
            Ok(v) => v,
            Err(_) => {
                return Err(HostError::InvalidAddress);
            },
        };
        self.timeout_heap.remove(id);
        Ok(())
    }

    /// `runtime.wasmExit`: reads the exit code from `sp + 8` and marks the
    /// instance exited; the driver terminates with that code.
    pub fn wasm_exit(&mut self, sp: i32) -> (r: Result<i32, HostError>)
        requires
            sp <= i32::MAX - 8,
        ensures
            r is Ok <==> old(self).mem.in_bounds(sp as int + 8, 8),
            r matches Ok(code) ==> code == spec_get_i32(old(self).mem@, sp as int + 8) && final(self).exited,
            r is Err ==> final(self).exited == old(self).exited,
            final(self).mem@ == old(self).mem@,
            final(self).js == old(self).js,
            final(self).call_queue == old(self).call_queue,
            final(self).timeout_heap == old(self).timeout_heap,
    {
        let code = match self.mem.get_i32(sp + 8) {
            Ok(v) => v,
            Err(_) => {
                return Err(HostError::InvalidAddress);
            },
        };
        self.exited = true;
        Ok(code)
    }

    /// `runtime.wasmWrite`: reads the string descriptor at `sp + 16` and
    /// hands the text back for the driver to print synchronously.
    pub fn wasm_write(&self, sp: i32) -> (r: Result<String, HostError>)
        requires
            sp <= i32::MAX - 16,
        ensures
            r is Ok <==> spec_string_ok(self.mem@, sp as int + 16),
            r matches Ok(s) ==> s@ == spec_string_at(self.mem@, sp as int + 16),
    {
        match self.mem.get_string(sp + 16) {
            Ok(s) => Ok(s),
            Err(e) => Err(HostError::from_mem(e)),
        }
    }

    /// `runtime.nanotime`: writes the clock reading in nanoseconds to
    /// `sp + 8`.
    pub fn nanotime(&mut self, sp: i32) -> (r: Result<(), HostError>)
        requires
            sp <= i32::MAX - 8,
        ensures
            r is Ok <==> old(self).mem.in_bounds(sp as int + 8, 8),
            r is Ok ==> exists|now: i64|
                0 <= now && final(self).mem@ == spec_splice(
                    old(self).mem@,
                    sp as int + 8,
                    crate::bytes::spec_i64_le_bytes(now),
                ),
            r is Err ==> final(self).mem@ == old(self).mem@,
            final(self).js == old(self).js,
            final(self).call_queue == old(self).call_queue,
            final(self).timeout_heap == old(self).timeout_heap,
            final(self).exited == old(self).exited,
    {
        let now = crate::util::epoch_ns();
        match self.mem.set_i64(sp + 8, now) {
            Ok(_) => Ok(()),
            Err(_) => Err(HostError::InvalidAddress),
        }
    }

    /// `runtime.walltime`: writes whole seconds to `sp + 8` and the
    /// nanoseconds within the second to `sp + 16`.
    pub fn walltime(&mut self, sp: i32) -> (r: Result<(), HostError>)
        requires
            sp <= i32::MAX - 16,
        ensures
            r is Ok <==> old(self).mem.in_bounds(sp as int + 8, 8) && old(self).mem.in_bounds(
                sp as int + 16,
                4,
            ),
            r is Ok ==> exists|secs: i64, nanos: i32|
                0 <= nanos < 1_000_000_000 && final(self).mem@ == spec_splice(
                    spec_splice(old(self).mem@, sp as int + 8, crate::bytes::spec_i64_le_bytes(secs)),
                    sp as int + 16,
                    spec_i32_le_bytes(nanos),
                ),
            final(self).js == old(self).js,
            final(self).call_queue == old(self).call_queue,
            final(self).timeout_heap == old(self).timeout_heap,
            final(self).exited == old(self).exited,
    {
        let (secs, nanos) = crate::util::walltime();
        let in_bounds = sp + 8 >= 0 && {
            let l = self.mem.len();
            (sp + 8) as u64 + 12 <= l as u64
        };
        if !in_bounds {
            return Err(HostError::InvalidAddress);
        }
        let w1 = self.mem.set_i64(sp + 8, secs);
        let w2 = self.mem.set_i32(sp + 16, nanos);
        proof {
            assert(w1 is Ok && w2 is Ok);
        }
        Ok(())
    }

    /// `runtime.getRandomData`: reads `{addr, len}` from `sp + 8` and
    /// `sp + 16` and fills that range of guest memory from the CSPRNG.
    pub fn get_random_data(&mut self, sp: i32) -> (r: Result<(), HostError>)
        requires
            sp <= i32::MAX - 16,
        ensures
            final(self).mem@.len() == old(self).mem@.len(),
            r is Ok <==> ({
                let addr = spec_get_i32(old(self).mem@, sp as int + 8) as int;
                let len = spec_get_i32(old(self).mem@, sp as int + 16) as int;
                &&& old(self).mem.in_bounds(sp as int + 8, 8)
                &&& old(self).mem.in_bounds(sp as int + 16, 8)
                &&& 0 <= addr && 0 <= len && addr + len <= old(self).mem@.len()
            }),
            r is Ok ==> ({
                let addr = spec_get_i32(old(self).mem@, sp as int + 8) as int;
                let len = spec_get_i32(old(self).mem@, sp as int + 16) as int;
                forall|t: int|
                    0 <= t < old(self).mem@.len() && !(addr <= t < addr + len) ==> final(self).mem@[t] == old(self).mem@[t]
            }),
            r is Err ==> final(self).mem@ == old(self).mem@,
            final(self).js == old(self).js,
            final(self).call_queue == old(self).call_queue,
            final(self).timeout_heap == old(self).timeout_heap,
            final(self).exited == old(self).exited,
    {
        let addr = match self.mem.get_i32(sp + 8) {
            Ok(v) => v,
            Err(_) => {
                return Err(HostError::InvalidAddress);
            },
        };
        let ln = match self.mem.get_i32(sp + 16) {
            Ok(v) => v,
            Err(_) => {
                return Err(HostError::InvalidAddress);
            },
        };
        if addr < 0 || ln < 0 {
            return Err(HostError::InvalidAddress);
        }
        let ml = self.mem.len();
        if addr as u64 > ml as u64 || ln as u64 > ml as u64 - addr as u64 {
            return Err(HostError::InvalidAddress);
        }
        let mut buf = match self.mem.read_bytes(addr as usize, ln as usize) {
            Ok(b) => b,
            Err(_) => {
                return Err(HostError::InvalidAddress);
            },
        };
        crate::util::fill_random(&mut buf);
        match self.mem.write_bytes(addr as usize, buf.as_slice()) {
            Ok(_) => Ok(()),
            Err(_) => Err(HostError::InvalidAddress),
        }
    }

    /// `syscall/wasm.prepareBytes`: writes the byte length of the slab
    /// bytes named at `sp + 8` to `sp + 16`.
    pub fn prepare_bytes(&mut self, sp: i32) -> (r: Result<(), HostError>)
        requires
            sp <= i32::MAX - 16,
        ensures
            r is Ok <==> ({
                let reference = spec_get_i32(old(self).mem@, sp as int + 8) as int;
                &&& old(self).mem.in_bounds(sp as int + 8, 8)
                &&& 0 <= reference < old(self).js.slab@.len()
                &&& old(self).js.slab@[reference] is Bytes
                &&& old(self).mem.in_bounds(sp as int + 16, 8)
            }),
            r is Ok ==> ({
                let reference = spec_get_i32(old(self).mem@, sp as int + 8) as int;
                final(self).mem@ == spec_splice(
                    old(self).mem@,
                    sp as int + 16,
                    crate::bytes::spec_i64_le_bytes(
                        (old(self).js.slab@[reference]->Bytes_0@.len() as i64),
                    ),
                )
            }),
            r is Err ==> final(self).mem@ == old(self).mem@,
            final(self).js == old(self).js,
            final(self).call_queue == old(self).call_queue,
            final(self).timeout_heap == old(self).timeout_heap,
            final(self).exited == old(self).exited,
    {
        let reference = match self.mem.get_i32(sp + 8) {
            Ok(v) => v,
            Err(_) => {
                return Err(HostError::InvalidAddress);
            },
        };
        let len = match self.js.slab_get(reference as i64) {
            Some(v) => match v {
                Value::Bytes(b) => b.len(),
                _ => {
                    return Err(HostError::TypeMismatch);
                },
            },
            None => {
                return Err(HostError::NoSuchRef);
            },
        };
        match self.mem.set_i64(sp + 16, len as i64) {
            Ok(_) => Ok(()),
            Err(_) => Err(HostError::InvalidAddress),
        }
    }

    /// `syscall/wasm.loadBytes`: copies the slab bytes named at `sp + 8`
    /// into guest memory at the `{addr, len}` read from `sp + 16` and
    /// `sp + 24`; the length must match the stored bytes exactly.
    pub fn load_bytes(&mut self, sp: i32) -> (r: Result<(), HostError>)
        requires
            sp <= i32::MAX - 24,
        ensures
            final(self).mem@.len() == old(self).mem@.len(),
            r is Ok <==> ({
                let reference = spec_get_i32(old(self).mem@, sp as int + 8) as int;
                let addr = spec_get_i32(old(self).mem@, sp as int + 16) as int;
                let ln = spec_get_i32(old(self).mem@, sp as int + 24) as int;
                &&& old(self).mem.in_bounds(sp as int + 8, 8)
                &&& old(self).mem.in_bounds(sp as int + 16, 8)
                &&& old(self).mem.in_bounds(sp as int + 24, 8)
                &&& 0 <= reference < old(self).js.slab@.len()
                &&& old(self).js.slab@[reference] is Bytes
                &&& 0 <= addr && 0 <= ln
                &&& ln == old(self).js.slab@[reference]->Bytes_0@.len()
                &&& addr + ln <= old(self).mem@.len()
            }),
            r is Ok ==> ({
                let reference = spec_get_i32(old(self).mem@, sp as int + 8) as int;
                let addr = spec_get_i32(old(self).mem@, sp as int + 16) as int;
                final(self).mem@ == spec_splice(
                    old(self).mem@,
                    addr,
                    old(self).js.slab@[reference]->Bytes_0@,
                )
            }),
            r is Err ==> final(self).mem@ == old(self).mem@,
            final(self).js == old(self).js,
            final(self).call_queue == old(self).call_queue,
            final(self).timeout_heap == old(self).timeout_heap,
            final(self).exited == old(self).exited,
    {
        let reference = match self.mem.get_i32(sp + 8) {
            Ok(v) => v,
            Err(_) => {
                return Err(HostError::InvalidAddress);
            },
        };
        let addr = match self.mem.get_i32(sp + 16) {
            Ok(v) => v,
            Err(_) => {
                return Err(HostError::InvalidAddress);
            },
        };
        let ln = match self.mem.get_i32(sp + 24) {
            Ok(v) => v,
            Err(_) => {
                return Err(HostError::InvalidAddress);
            },
        };
        let b: Vec<u8> = match self.js.slab_get(reference as i64) {
            Some(v) => match v {
                Value::Bytes(b) => b.clone(),
                _ => {
                    return Err(HostError::TypeMismatch);
                },
            },
            None => {
                return Err(HostError::NoSuchRef);
            },
        };
        if addr < 0 || ln < 0 || (ln as usize) != b.len() {
            return Err(HostError::InvalidAddress);
        }
        match self.mem.write_bytes(addr as usize, b.as_slice()) {
            Ok(_) => Ok(()),
            Err(_) => Err(HostError::InvalidAddress),
        }
    }

    /// `syscall/js.stringVal`: interns the string at `sp + 8` as a slab
    /// string value and writes its handle as a tagged slot at `sp + 24`.
    pub fn string_val(&mut self, sp: i32) -> (r: Result<(), HostError>)
        requires
            old(self).js.slab@.len() < 0x7FFF_FFFF,
            sp <= i32::MAX - 24,
        ensures
            r is Ok <==> (spec_string_ok(old(self).mem@, sp as int + 8) && old(self).mem.in_bounds(sp as int + 24, 8)),
            r is Ok ==> ({
                &&& final(self).js.slab@.len() == old(self).js.slab@.len() + 1
                &&& (final(self).js.slab@.last() matches Value::String(s) && s@
                    == spec_string_at(old(self).mem@, sp as int + 8))
                &&& forall|i: int|
                    0 <= i < old(self).js.slab@.len() ==> final(self).js.slab@[i] == old(self).js.slab@[i]
                &&& final(self).mem@ == spec_splice(
                    old(self).mem@,
                    sp as int + 24,
                    spec_slot_bytes(((old(self).js.slab@.len() as i64), true)),
                )
            }),
            r is Err ==> final(self).mem@ == old(self).mem@,
            final(self).call_queue == old(self).call_queue,
            final(self).timeout_heap == old(self).timeout_heap,
            final(self).exited == old(self).exited,
    {
        let s = match self.mem.get_string(sp + 8) {
            Ok(s) => s,
            Err(e) => {
                return Err(HostError::from_mem(e));
            },
        };
        let in_bounds = sp + 24 >= 0 && {
            let l = self.mem.len();
            (sp + 24) as u64 + 8 <= l as u64
        };
        if !in_bounds {
            return Err(HostError::InvalidAddress);
        }
        let reference = self.js.slab_add(Value::String(s));
        let w = self.store_value(sp + 24, (reference, true));
        proof {
            assert(w is Ok);
        }
        Ok(())
    }

    /// `syscall/js.valueGet`: looks the interned property named at
    /// `sp + 16` up on the object in the slot at `sp + 8` and stores the
    /// result slot at `sp + 32`.
    pub fn value_get(&mut self, sp: i32) -> (r: Result<(), HostError>)
        requires
            old(self).wf(),
            sp <= i32::MAX - 32,
        ensures
            final(self).wf(),
            r is Ok <==> ({
                let target = spec_slot_at(old(self).mem@, sp as int + 8).0;
                let key = spec_string_at(old(self).mem@, sp as int + 16);
                &&& old(self).mem.in_bounds(sp as int + 8, 8)
                &&& spec_string_ok(old(self).mem@, sp as int + 16)
                &&& crate::js::spec_has_static(old(self).js.static_strings@, key)
                &&& old(self).js.spec_is_object(target)
                &&& crate::js::spec_obj_props(old(self).js.slab@[target as int]).contains_key(
                    key,
                )
                &&& old(self).mem.in_bounds(sp as int + 32, 8)
            }),
            r is Ok ==> ({
                let target = spec_slot_at(old(self).mem@, sp as int + 8).0;
                let key = spec_string_at(old(self).mem@, sp as int + 16);
                final(self).mem@ == spec_splice(
                    old(self).mem@,
                    sp as int + 32,
                    spec_slot_bytes(
                        crate::js::spec_obj_props(old(self).js.slab@[target as int])[key],
                    ),
                )
            }),
            r is Err ==> final(self).mem@ == old(self).mem@,
            final(self).js == old(self).js,
            final(self).call_queue == old(self).call_queue,
            final(self).timeout_heap == old(self).timeout_heap,
            final(self).exited == old(self).exited,
    {
        let v = match self.load_value(sp + 8) {
            Ok(v) => v,
            Err(e) => {
                return Err(e);
            },
        };
        let key = match self.get_static_string(sp + 16) {
            Ok(k) => k,
            Err(e) => {
                return Err(e);
            },
        };
        let result = match self.js.reflect_get(v.0, key.as_str()) {
            Some(p) => p,
            None => {
                return Err(HostError::TypeMismatch);
            },
        };
        match self.store_value(sp + 32, result) {
            Ok(_) => Ok(()),
            Err(e) => Err(e),
        }
    }

    /// `syscall/js.valueSet`: sets the interned property named at `sp + 16`
    /// on the object in the slot at `sp + 8` to the handle in the slot at
    /// `sp + 32`.
    pub fn value_set(&mut self, sp: i32) -> (r: Result<(), HostError>)
        requires
            old(self).wf(),
            old(self).js.slab@.len() < 0x7FFF_FFFF,
            sp <= i32::MAX - 32,
        ensures
            final(self).wf(),
            r is Ok <==> ({
                let target = spec_slot_at(old(self).mem@, sp as int + 8).0;
                let key = spec_string_at(old(self).mem@, sp as int + 16);
                &&& old(self).mem.in_bounds(sp as int + 8, 8)
                &&& spec_string_ok(old(self).mem@, sp as int + 16)
                &&& crate::js::spec_has_static(old(self).js.static_strings@, key)
                &&& old(self).mem.in_bounds(sp as int + 32, 8)
                &&& (old(self).js.spec_is_object(target) || old(self).mem.in_bounds(
                    sp as int,
                    4,
                ))
            }),
            r is Ok ==> ({
                let target = spec_slot_at(old(self).mem@, sp as int + 8).0;
                let key = spec_string_at(old(self).mem@, sp as int + 16);
                let value = spec_slot_at(old(self).mem@, sp as int + 32).0;
                old(self).js.spec_is_object(target) ==> ({
                    &&& final(self).mem@ == old(self).mem@
                    &&& final(self).js.slab@.len() == old(self).js.slab@.len()
                    &&& final(self).js.slab@[target as int] is Object
                    &&& spec_obj_name(final(self).js.slab@[target as int]) == spec_obj_name(
                        old(self).js.slab@[target as int],
                    )
                    &&& crate::js::spec_obj_props(final(self).js.slab@[target as int])
                        == crate::js::spec_obj_props(old(self).js.slab@[target as int]).insert(
                        key,
                        (value, true),
                    )
                    &&& forall|i: int|
                        0 <= i < old(self).js.slab@.len() && i != target ==> final(self).js.slab@[i] == old(self).js.slab@[i]
                })
            }),
            r is Ok ==> ({
                let target = spec_slot_at(old(self).mem@, sp as int + 8).0;
                // a failed set stores an error text for the guest instead
                !old(self).js.spec_is_object(target) ==> ({
                    &&& final(self).js.slab@.len() == old(self).js.slab@.len() + 1
                    &&& final(self).js.slab@.last() is Bytes
                    &&& final(self).mem@ == spec_splice(
                        old(self).mem@,
                        sp as int,
                        crate::bytes::spec_i32_le_bytes(old(self).js.slab@.len() as i32),
                    )
                })
            }),
            final(self).call_queue == old(self).call_queue,
            final(self).timeout_heap == old(self).timeout_heap,
            final(self).exited == old(self).exited,
    {
        let target = match self.load_value(sp + 8) {
            Ok(v) => v,
            Err(e) => {
                return Err(e);
            },
        };
        let key = match self.get_static_string(sp + 16) {
            Ok(k) => k,
            Err(e) => {
                return Err(e);
            },
        };
        let value = match self.load_value(sp + 32) {
            Ok(v) => v,
            Err(e) => {
                return Err(e);
            },
        };
        match self.js.reflect_set(target.0, key.as_str(), value.0) {
            Ok(_) => {
                proof {
                    assert(crate::js::spec_obj_props(
                        self.js.slab@[target.0 as int],
                    ).contains_key(key@) && crate::js::spec_obj_props(
                        self.js.slab@[target.0 as int],
                    )[key@] == (value.0, true));
                }
                Ok(())
            },
            Err(_) => {
                match self.set_error(sp, "reflect_set target or property_key doesn't exist".to_owned()) {
                    Ok(_) => Ok(()),
                    Err(e) => Err(e),
                }
            },
        }
    }

    /// `syscall/js.valueIndex`: reads the element whose index sits at
    /// `sp + 16` from the array in the slot at `sp + 8` and stores the
    /// result slot at `sp + 24`.
    pub fn value_index(&mut self, sp: i32) -> (r: Result<(), HostError>)
        requires
            sp <= i32::MAX - 24,
        ensures
            r is Ok <==> ({
                let target = spec_slot_at(old(self).mem@, sp as int + 8).0;
                let key = spec_get_i64(old(self).mem@, sp as int + 16);
                &&& old(self).mem.in_bounds(sp as int + 8, 8)
                &&& old(self).mem.in_bounds(sp as int + 16, 8)
                &&& 0 <= target < old(self).js.slab@.len()
                &&& old(self).js.slab@[target as int] is Array
                &&& 0 <= key < old(self).js.slab@[target as int]->Array_0@.len()
                &&& old(self).mem.in_bounds(sp as int + 24, 8)
            }),
            r is Ok ==> ({
                let target = spec_slot_at(old(self).mem@, sp as int + 8).0;
                let key = spec_get_i64(old(self).mem@, sp as int + 16);
                final(self).mem@ == spec_splice(
                    old(self).mem@,
                    sp as int + 24,
                    spec_slot_bytes(old(self).js.slab@[target as int]->Array_0@[key as int]),
                )
            }),
            r is Err ==> final(self).mem@ == old(self).mem@,
            final(self).js == old(self).js,
            final(self).call_queue == old(self).call_queue,
            final(self).timeout_heap == old(self).timeout_heap,
            final(self).exited == old(self).exited,
    {
        let target = match self.load_value(sp + 8) {
            Ok(v) => v,
            Err(e) => {
                return Err(e);
            },
        };
        let key = match self.mem.get_i64(sp + 16) {
            Ok(v) => v,
            Err(_) => {
                return Err(HostError::InvalidAddress);
            },
        };
        let jsv = match self.js.reflect_get_index(target.0, key) {
            Some(p) => p,
            None => {
                return Err(HostError::TypeMismatch);
            },
        };
        match self.store_value(sp + 24, jsv) {
            Ok(_) => Ok(()),
            Err(e) => Err(e),
        }
    }

    /// `syscall/js.valueCall`: dispatches `target.method(args)` through
    /// `reflect_apply` — the method name is the interned string at
    /// `sp + 16`, the argument slots are described at `sp + 32` — then
    /// stores the result slot at `sp + 56` and a success byte at `sp + 64`.
    /// An I/O request the route produced is handed back for the driver.
    #[verifier::rlimit(100)]
    pub fn value_call(&mut self, sp: i32) -> (r: Result<Option<IoRequest>, HostError>)
        requires
            old(self).wf(),
            old(self).js.slab@.len() + 4 < 0x7FFF_FFFF,
            sp <= i32::MAX - 64,
        ensures
            final(self).wf(),
            final(self).exited == old(self).exited,
            final(self).timeout_heap == old(self).timeout_heap,
            final(self).call_queue == old(self).call_queue,
            r is Ok <==> (spec_call_frame_ok(*old(self), sp as int)
                && crate::shared_state::spec_apply_ok(
                *old(self),
                spec_call_method(*old(self), sp as int),
                spec_slot_at(old(self).mem@, sp as int + 8).0,
                spec_slice_at(old(self).mem@, sp as int + 32),
            )),
            r is Ok ==> ({
                let tgt = spec_slot_at(old(self).mem@, sp as int + 8).0;
                let mh = spec_call_method(*old(self), sp as int);
                let args = spec_slice_at(old(self).mem@, sp as int + 32);
                let res = crate::shared_state::spec_apply_result(*old(self), mh, tgt, args);
                let tn = spec_obj_name(old(self).js.slab@[mh as int]);
                let an = spec_obj_name(old(self).js.slab@[tgt as int]);
                &&& final(self).mem@.len() == old(self).mem@.len()
                &&& final(self).mem@.subrange(sp as int + 56, sp as int + 64) == spec_slot_bytes(
                    res,
                )
                &&& final(self).mem@[sp as int + 64] == 1u8
            }),
            r is Ok ==> ({
                let tgt = spec_slot_at(old(self).mem@, sp as int + 8).0;
                let mh = spec_call_method(*old(self), sp as int);
                let args = spec_slice_at(old(self).mem@, sp as int + 32);
                let res = crate::shared_state::spec_apply_result(*old(self), mh, tgt, args);
                let tn = spec_obj_name(old(self).js.slab@[mh as int]);
                let an = spec_obj_name(old(self).js.slab@[tgt as int]);
                &&& !(tn == "getRandomValues"@ && an == "crypto"@) ==> forall|t: int|
                    0 <= t < old(self).mem@.len() && !(sp + 56 <= t < sp + 65) ==> final(self).mem@[t] == old(self).mem@[t]
                &&& (tn == "getRandomValues"@ && an == "crypto"@) ==> (old(self).js.slab@[args[0].0 as int] matches Value::Memory { address, len } ==> forall|t: int|
                    0 <= t < old(self).mem@.len() && !(sp + 56 <= t < sp + 65) && !(address <= t
                        < address + len) ==> final(self).mem@[t] == old(self).mem@[t])
            }),
            r is Ok ==> ({
                let tgt = spec_slot_at(old(self).mem@, sp as int + 8).0;
                let mh = spec_call_method(*old(self), sp as int);
                let args = spec_slice_at(old(self).mem@, sp as int + 32);
                let res = crate::shared_state::spec_apply_result(*old(self), mh, tgt, args);
                let tn = spec_obj_name(old(self).js.slab@[mh as int]);
                let an = spec_obj_name(old(self).js.slab@[tgt as int]);
                (tn == "_makeFuncWrapper"@ && an == "this"@) ==> ({
                    let wf_handle = old(self).js.slab@.len() as i64;
                    &&& final(self).js.slab@.len() == old(self).js.slab@.len() + 2
                    &&& forall|i: int|
                        0 <= i < old(self).js.slab@.len() ==> final(self).js.slab@[i] == old(self).js.slab@[i]
                    &&& final(self).js.slab@[wf_handle as int] is Object
                    &&& spec_obj_name(final(self).js.slab@[wf_handle as int]) == "wrappedFunc"@
                    &&& crate::js::spec_obj_props(
                        final(self).js.slab@[wf_handle as int],
                    )["id"@] == args[0]
                    &&& crate::js::spec_obj_props(
                        final(self).js.slab@[wf_handle as int],
                    )["this"@] == ((wf_handle + 1) as i64, true)
                })
            }),
            r is Ok ==> ({
                let tgt = spec_slot_at(old(self).mem@, sp as int + 8).0;
                let mh = spec_call_method(*old(self), sp as int);
                let args = spec_slice_at(old(self).mem@, sp as int + 32);
                let res = crate::shared_state::spec_apply_result(*old(self), mh, tgt, args);
                let tn = spec_obj_name(old(self).js.slab@[mh as int]);
                let an = spec_obj_name(old(self).js.slab@[tgt as int]);
                !(tn == "_makeFuncWrapper"@ && an == "this"@) ==> final(self).js == old(self).js
            }),
            r is Ok ==> ({
                let tgt = spec_slot_at(old(self).mem@, sp as int + 8).0;
                let mh = spec_call_method(*old(self), sp as int);
                let args = spec_slice_at(old(self).mem@, sp as int + 32);
                let res = crate::shared_state::spec_apply_result(*old(self), mh, tgt, args);
                let tn = spec_obj_name(old(self).js.slab@[mh as int]);
                let an = spec_obj_name(old(self).js.slab@[tgt as int]);
                &&& (tn == "register"@ && an == "net_listener"@) ==> final(self).net_callback_id
                    == crate::js::spec_obj_props(old(self).js.slab@[args[0].0 as int])["id"@].0
                &&& !(tn == "register"@ && an == "net_listener"@) ==> final(self).net_callback_id
                    == old(self).net_callback_id
            }),
            r is Ok ==> ({
                let tgt = spec_slot_at(old(self).mem@, sp as int + 8).0;
                let mh = spec_call_method(*old(self), sp as int);
                let args = spec_slice_at(old(self).mem@, sp as int + 32);
                let res = crate::shared_state::spec_apply_result(*old(self), mh, tgt, args);
                let tn = spec_obj_name(old(self).js.slab@[mh as int]);
                let an = spec_obj_name(old(self).js.slab@[tgt as int]);
                &&& (tn == "write"@ && an == "fs"@) ==> (r matches Ok(req) && (req matches Some(
                    q,
                ) && q matches IoRequest::Stdout { id, buf } && id == args[5].0 && (old(self).js.slab@[args[1].0 as int] matches Value::Memory { address, len } ==> buf@
                    == old(self).mem@.subrange(address as int, address + len))))
                &&& (tn == "open"@ && an == "fs"@) ==> (r matches Ok(req) && (req matches Some(q)
                    && q matches IoRequest::FsOpen { id, path, openmode, perm } && id == args[3].0
                    && openmode == crate::js::spec_int_from(args[1]) && perm
                    == crate::js::spec_int_from(args[2]) as i32 && (old(self).js.slab@[args[0].0 as int] matches Value::String(p) ==> path@ == p@)))
                &&& (tn == "lookup_ip"@ && an == "wasabi"@) ==> (r matches Ok(req) && (req
                    matches Some(q) && q matches IoRequest::LookupIp { id, host } && id
                    == args[1].0 && (old(self).js.slab@[args[0].0 as int] matches Value::String(
                    h,
                ) ==> host@ == h@)))
                &&& (tn == "fstat"@ && an == "fs"@) ==> (r matches Ok(req) && (req matches Some(
                    q,
                ) && q == (IoRequest::Metadata {
                    id: args[1].0,
                    fd: crate::js::spec_int_from(args[0]) as usize,
                })))
                &&& (tn == "read"@ && an == "fs"@) ==> (r matches Ok(req) && (req matches Some(q)
                    && q == (IoRequest::FsRead {
                    id: args[5].0,
                    fd: crate::js::spec_int_from(args[0]) as usize,
                    address: old(self).js.slab@[args[1].0 as int]->Memory_address as usize,
                    len: crate::js::spec_int_from(args[3]) as usize,
                })))
                &&& !((tn == "write"@ && an == "fs"@) || (tn == "open"@ && an == "fs"@) || (tn
                    == "lookup_ip"@ && an == "wasabi"@) || (tn == "fstat"@ && an == "fs"@) || (tn
                    == "read"@ && an == "fs"@)) ==> r == Ok::<_, HostError>(None::<IoRequest>)
            }),
    {
        let v = match self.load_value(sp + 8) {
            Ok(v) => v,
            Err(e) => {
                return Err(e);
            },
        };
        let key = match self.get_static_string(sp + 16) {
            Ok(k) => k,
            Err(e) => {
                return Err(e);
            },
        };
        let m = match self.js.reflect_get(v.0, key.as_str()) {
            Some(p) => p,
            None => {
                return Err(HostError::TypeMismatch);
            },
        };
        let args = match self.load_slice_of_values(sp + 32) {
            Ok(a) => a,
            Err(e) => {
                return Err(e);
            },
        };
        proof {
            assert(v == spec_slot_at(old(self).mem@, sp as int + 8));
            assert(key@ == spec_string_at(old(self).mem@, sp as int + 16));
            assert(m.0 == spec_call_method(*old(self), sp as int));
            assert(args@ == spec_slice_at(old(self).mem@, sp as int + 32));
            reveal_strlit("getTimezoneOffset");
            reveal_strlit("register");
            reveal_strlit("_makeFuncWrapper");
            reveal_strlit("getRandomValues");
            reveal_strlit("lookup_ip");
            reveal_strlit("isDirectory");
            reveal_strlit("fstat");
            reveal_strlit("read");
            reveal_strlit("open");
            reveal_strlit("stat");
            reveal_strlit("write");
            reveal_strlit("Date");
            reveal_strlit("net_listener");
            reveal_strlit("this");
            reveal_strlit("crypto");
            reveal_strlit("wasabi");
            reveal_strlit("fs");
            assert("getTimezoneOffset"@.len() == 17 && "register"@.len() == 8
                && "_makeFuncWrapper"@.len() == 16 && "getRandomValues"@.len() == 15
                && "lookup_ip"@.len() == 9 && "isDirectory"@.len() == 11 && "fstat"@.len() == 5
                && "read"@.len() == 4 && "open"@.len() == 4 && "stat"@.len() == 4
                && "write"@.len() == 5);
            assert("read"@[0] == 'r' && "open"@[0] == 'o' && "stat"@[0] == 's' && "fstat"@[0]
                == 'f' && "write"@[0] == 'w');
            assert("read"@ != "open"@ && "read"@ != "stat"@ && "open"@ != "stat"@ && "fstat"@
                != "write"@);
            assert("Date"@.len() == 4 && "net_listener"@.len() == 12 && "this"@.len() == 4
                && "crypto"@.len() == 6 && "wasabi"@.len() == 6 && "fs"@.len() == 2);
            assert("Date"@[0] == 'D' && "this"@[0] == 't' && "crypto"@[0] == 'c'
                && "wasabi"@[0] == 'w');
            assert("Date"@ != "this"@ && "crypto"@ != "wasabi"@);
        }
        let (result, req) = match self.reflect_apply(m.0, v.0, args) {
            Ok(p) => p,
            Err(e) => {
                return Err(e);
            },
        };
        match self.store_value(sp + 56, result) {
            Ok(_) => {},
            Err(e) => {
                return Err(e);
            },
        }
        match self.mem.set_bool(sp + 64, true) {
            Ok(_) => {
                proof {
                    let tgtg = spec_slot_at(old(self).mem@, sp as int + 8).0;
                    let mhg = spec_call_method(*old(self), sp as int);
                    let argsg = spec_slice_at(old(self).mem@, sp as int + 32);
                    let tng = spec_obj_name(old(self).js.slab@[mhg as int]);
                    let ang = spec_obj_name(old(self).js.slab@[tgtg as int]);
                    if tng == "_makeFuncWrapper"@ && ang == "this"@ {
                        let wf_handle = old(self).js.slab@.len() as i64;
                        assert(self.js.slab@.len() == old(self).js.slab@.len() + 2);
                        assert(forall|i: int|
                            0 <= i < old(self).js.slab@.len() ==> self.js.slab@[i] == old(
                                self,
                            ).js.slab@[i]);
                        assert(self.js.slab@[wf_handle as int] is Object);
                        assert(spec_obj_name(self.js.slab@[wf_handle as int]) == "wrappedFunc"@);
                        assert(crate::js::spec_obj_props(
                            self.js.slab@[wf_handle as int],
                        )["id"@] == argsg[0]);
                        assert(crate::js::spec_obj_props(
                            self.js.slab@[wf_handle as int],
                        )["this"@] == ((wf_handle + 1) as i64, true));
                    }
                }
                Ok(req)
            },
            Err(_) => Err(HostError::InvalidAddress),
        }
    }

    /// `syscall/js.valueNew`: constructs an instance of the class in the
    /// slot at `sp + 8` with the argument slots described at `sp + 16`,
    /// storing the result slot at `sp + 40` and a success byte at `sp + 48`.
    pub fn value_new(&mut self, sp: i32) -> (r: Result<(), HostError>)
        requires
            old(self).wf(),
            old(self).js.slab@.len() + 2 < 0x7FFF_FFFF,
            sp <= i32::MAX - 48,
        ensures
            final(self).wf(),
            final(self).exited == old(self).exited,
            final(self).timeout_heap == old(self).timeout_heap,
            final(self).call_queue == old(self).call_queue,
            r is Ok <==> ({
                let target = spec_slot_at(old(self).mem@, sp as int + 8).0;
                let args = spec_slice_at(old(self).mem@, sp as int + 16);
                &&& old(self).mem.in_bounds(sp as int + 8, 8)
                &&& spec_slice_ok(old(self).mem@, sp as int + 16)
                &&& old(self).js.spec_is_object(target)
                &&& ({
                    let name = spec_obj_name(old(self).js.slab@[target as int]);
                    ||| (name == "Uint8Array"@ && args.len() >= 3)
                    ||| name == "Date"@
                    ||| name == "net_listener"@
                })
                &&& old(self).mem.in_bounds(sp as int + 40, 8)
                &&& old(self).mem.in_bounds(sp as int + 48, 1)
            }),
            r is Ok ==> ({
                let target = spec_slot_at(old(self).mem@, sp as int + 8).0;
                let args = spec_slice_at(old(self).mem@, sp as int + 16);
                let name = spec_obj_name(old(self).js.slab@[target as int]);
                let slots = |res: (i64, bool)|
                    spec_splice(
                        spec_splice(old(self).mem@, sp as int + 40, spec_slot_bytes(res)),
                        sp as int + 48,
                        seq![1u8],
                    );
                &&& (name == "Uint8Array"@) ==> (final(self).js.slab@ == old(self).js.slab@.push(
                    (Value::Memory { address: args[1].0, len: args[2].0 }),
                ) && final(self).mem@ == slots(((old(self).js.slab@.len() as i64), true)))
                &&& (name == "Date"@) ==> (final(self).js.slab@ == old(self).js.slab@ && final(self).mem@ == slots((target, true)))
                &&& (name == "net_listener"@) ==> ({
                    let nl = old(self).js.slab@.len() as i64;
                    &&& final(self).js.slab@.len() == old(self).js.slab@.len() + 2
                    &&& forall|i: int|
                        0 <= i < old(self).js.slab@.len() ==> final(self).js.slab@[i] == old(self).js.slab@[i]
                    &&& final(self).js.slab@[nl as int] is Object
                    &&& spec_obj_name(final(self).js.slab@[nl as int]) == "net_listener"@
                    &&& crate::js::spec_obj_props(final(self).js.slab@[nl as int]).contains_key(
                        "register"@,
                    )
                    &&& final(self).mem@ == slots((nl, true))
                })
            }),
    {
        let v = match self.load_value(sp + 8) {
            Ok(v) => v,
            Err(e) => {
                return Err(e);
            },
        };
        let args = match self.load_slice_of_values(sp + 16) {
            Ok(a) => a,
            Err(e) => {
                return Err(e);
            },
        };
        let result = match self.js.reflect_construct(v.0, args) {
            Some(p) => p,
            None => {
                return Err(HostError::TypeMismatch);
            },
        };
        match self.store_value(sp + 40, result) {
            Ok(_) => {},
            Err(e) => {
                return Err(e);
            },
        }
        match self.mem.set_bool(sp + 48, true) {
            Ok(_) => Ok(()),
            Err(_) => Err(HostError::InvalidAddress),
        }
    }

    /// `syscall/js.valueLength`: writes the length of the array in the
    /// slot at `sp + 8` to `sp + 16`.
    pub fn value_length(&mut self, sp: i32) -> (r: Result<(), HostError>)
        requires
            sp <= i32::MAX - 16,
        ensures
            r is Ok <==> ({
                let target = spec_slot_at(old(self).mem@, sp as int + 8).0;
                &&& old(self).mem.in_bounds(sp as int + 8, 8)
                &&& 0 <= target < old(self).js.slab@.len()
                &&& old(self).js.slab@[target as int] is Array
                &&& old(self).mem.in_bounds(sp as int + 16, 8)
            }),
            r is Ok ==> ({
                let target = spec_slot_at(old(self).mem@, sp as int + 8).0;
                final(self).mem@ == spec_splice(
                    old(self).mem@,
                    sp as int + 16,
                    crate::bytes::spec_i64_le_bytes(
                        (old(self).js.slab@[target as int]->Array_0@.len() as i64),
                    ),
                )
            }),
            r is Err ==> final(self).mem@ == old(self).mem@,
            final(self).js == old(self).js,
            final(self).call_queue == old(self).call_queue,
            final(self).timeout_heap == old(self).timeout_heap,
            final(self).exited == old(self).exited,
    {
        let v = match self.load_value(sp + 8) {
            Ok(v) => v,
            Err(e) => {
                return Err(e);
            },
        };
        let num = match self.js.value_length(v.0) {
            Some(n) => n,
            None => {
                return Err(HostError::TypeMismatch);
            },
        };
        match self.mem.set_i64(sp + 16, num) {
            Ok(_) => Ok(()),
            Err(_) => Err(HostError::InvalidAddress),
        }
    }

    /// `syscall/js.valuePrepareString`: for the slab string named at
    /// `sp + 8`, writes its handle to `sp + 16` and its byte length to
    /// `sp + 24`, so the guest can allocate before loading it.
    pub fn value_prepare_string(&mut self, sp: i32) -> (r: Result<(), HostError>)
        requires
            sp <= i32::MAX - 24,
        ensures
            r is Ok <==> ({
                let reference = spec_get_i32(old(self).mem@, sp as int + 8) as int;
                &&& old(self).mem.in_bounds(sp as int + 8, 8)
                &&& 0 <= reference < old(self).js.slab@.len()
                &&& old(self).js.slab@[reference] is String
                &&& old(self).mem.in_bounds(sp as int + 16, 8)
                &&& old(self).mem.in_bounds(sp as int + 24, 8)
            }),
            r is Ok ==> ({
                let reference = spec_get_i32(old(self).mem@, sp as int + 8) as int;
                old(self).js.slab@[reference] matches Value::String(str_val) ==> final(self).mem@ == spec_splice(
                    spec_splice(
                        old(self).mem@,
                        sp as int + 16,
                        crate::bytes::spec_i64_le_bytes(reference as i64),
                    ),
                    sp as int + 24,
                    crate::bytes::spec_i64_le_bytes(
                        (crate::shared_state::spec_string_bytes(str_val).len() as i64),
                    ),
                )
            }),
            final(self).js == old(self).js,
            final(self).call_queue == old(self).call_queue,
            final(self).timeout_heap == old(self).timeout_heap,
            final(self).exited == old(self).exited,
    {
        let reference = match self.mem.get_i32(sp + 8) {
            Ok(v) => v,
            Err(_) => {
                return Err(HostError::InvalidAddress);
            },
        };
        let len = match self.js.slab_get(reference as i64) {
            Some(v) => match v {
                Value::String(s) => s.as_str().as_bytes().len(),
                _ => {
                    return Err(HostError::TypeMismatch);
                },
            },
            None => {
                return Err(HostError::NoSuchRef);
            },
        };
        let in_bounds = sp + 16 >= 0 && {
            let l = self.mem.len();
            (sp + 16) as u64 + 16 <= l as u64
        };
        if !in_bounds {
            return Err(HostError::InvalidAddress);
        }
        let w1 = self.mem.set_i64(sp + 16, reference as i64);
        let w2 = self.mem.set_i64(sp + 24, len as i64);
        proof {
            assert(w1 is Ok && w2 is Ok);
        }
        Ok(())
    }

    /// `syscall/js.valueLoadString`: copies the bytes of the slab string
    /// named at `sp + 8` into guest memory at the `{addr, len}` read from
    /// `sp + 16` and `sp + 24`; the length must match exactly.
    pub fn value_load_string(&mut self, sp: i32) -> (r: Result<(), HostError>)
        requires
            sp <= i32::MAX - 24,
        ensures
            final(self).mem@.len() == old(self).mem@.len(),
            r is Ok <==> ({
                let reference = spec_get_i32(old(self).mem@, sp as int + 8) as int;
                let addr = spec_get_i32(old(self).mem@, sp as int + 16) as int;
                let ln = spec_get_i32(old(self).mem@, sp as int + 24) as int;
                &&& old(self).mem.in_bounds(sp as int + 8, 8)
                &&& old(self).mem.in_bounds(sp as int + 16, 8)
                &&& old(self).mem.in_bounds(sp as int + 24, 8)
                &&& 0 <= reference < old(self).js.slab@.len()
                &&& old(self).js.slab@[reference] is String
                &&& 0 <= addr && 0 <= ln
                &&& (old(self).js.slab@[reference] matches Value::String(str_val) ==> ln
                    == crate::shared_state::spec_string_bytes(str_val).len())
                &&& addr + ln <= old(self).mem@.len()
            }),
            r is Ok ==> ({
                let reference = spec_get_i32(old(self).mem@, sp as int + 8) as int;
                let addr = spec_get_i32(old(self).mem@, sp as int + 16) as int;
                old(self).js.slab@[reference] matches Value::String(str_val) ==> final(self).mem@
                    == spec_splice(
                    old(self).mem@,
                    addr,
                    crate::shared_state::spec_string_bytes(str_val),
                )
            }),
            r is Err ==> final(self).mem@ == old(self).mem@,
            final(self).js == old(self).js,
            final(self).call_queue == old(self).call_queue,
            final(self).timeout_heap == old(self).timeout_heap,
            final(self).exited == old(self).exited,
    {
        let reference = match self.mem.get_i32(sp + 8) {
            Ok(v) => v,
            Err(_) => {
                return Err(HostError::InvalidAddress);
            },
        };
        let addr = match self.mem.get_i32(sp + 16) {
            Ok(v) => v,
            Err(_) => {
                return Err(HostError::InvalidAddress);
            },
        };
        let ln = match self.mem.get_i32(sp + 24) {
            Ok(v) => v,
            Err(_) => {
                return Err(HostError::InvalidAddress);
            },
        };
        let b: Vec<u8> = match self.js.slab_get(reference as i64) {
            Some(v) => match v {
                Value::String(s) => {
                    let mut out: Vec<u8> = Vec::new();
                    let bs = s.as_str().as_bytes();
                    let n = bs.len();
                    let mut i: usize = 0;
                    while i < n
                        invariant
                            0 <= i <= n,
                            n == bs@.len(),
                            out@ == bs@.take(i as int),
                        decreases n - i,
                    {
                        out.push(bs[i]);
                        proof {
                            assert(bs@.take(i as int).push(bs@[i as int]) =~= bs@.take(
                                i as int + 1,
                            ));
                        }
                        i = i + 1;
                    }
                    proof {
                        assert(bs@.take(n as int) =~= bs@);
                    }
                    out
                },
                _ => {
                    return Err(HostError::TypeMismatch);
                },
            },
            None => {
                return Err(HostError::NoSuchRef);
            },
        };
        if addr < 0 || ln < 0 || (ln as usize) != b.len() {
            return Err(HostError::InvalidAddress);
        }
        match self.mem.write_bytes(addr as usize, b.as_slice()) {
            Ok(_) => Ok(()),
            Err(_) => Err(HostError::InvalidAddress),
        }
    }
}

} // verus!
