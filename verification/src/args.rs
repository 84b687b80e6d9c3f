//! The argument vector the guest reads at startup: each argument string is
//! written nul-terminated and 8-aligned from byte offset 4096 of the linear
//! memory, followed by a table of 8-byte entries holding each string's
//! offset; the table's base is handed to the guest's entry point.

use vstd::prelude::*;

use crate::bytes::{spec_u32_le_bytes, u32_as_u8_le};
use crate::mem::spec_splice;

verus! {

/// The byte offset the argument strings start at.
pub const ARGS_BASE: usize = 4096;

/// The bytes of a string, UTF-8 encoded.
pub open spec fn spec_str_bytes(s: String) -> Seq<u8> {
    vstd::utf8::encode_utf8(s@)
}

/// Where the next string lands after one of `len` bytes at `offset`: past
/// the string, its nul byte, and padding to the next 8-boundary.
pub open spec fn spec_arg_next(offset: int, len: int) -> int {
    offset + len + (8 - len % 8)
}

/// The offset of the first byte after all argument strings, where the
/// pointer table begins.
pub open spec fn spec_args_end(args: Seq<Seq<u8>>, base: int) -> int
    decreases args.len(),
{
    if args.len() == 0 {
        base
    } else {
        spec_args_end(args.drop_first(), spec_arg_next(base, args.first().len() as int))
    }
}

/// The offset each argument string is written at.
pub open spec fn spec_arg_offsets(args: Seq<Seq<u8>>, base: int) -> Seq<int>
    decreases args.len(),
{
    if args.len() == 0 {
        Seq::empty()
    } else {
        seq![base] + spec_arg_offsets(
            args.drop_first(),
            spec_arg_next(base, args.first().len() as int),
        )
    }
}

proof fn lemma_arg_offsets_len(args: Seq<Seq<u8>>, base: int)
    ensures
        spec_arg_offsets(args, base).len() == args.len(),
    decreases args.len(),
{
    if args.len() > 0 {
        lemma_arg_offsets_len(args.drop_first(), spec_arg_next(base, args.first().len() as int));
    }
}

proof fn lemma_args_end_grows(args: Seq<Seq<u8>>, base: int)
    ensures
        base <= spec_args_end(args, base),
    decreases args.len(),
{
    if args.len() > 0 {
        lemma_args_end_grows(args.drop_first(), spec_arg_next(base, args.first().len() as int));
        assert(args.first().len() as int % 8 < 8);
    }
}

/// Writes one argument string at `offset` followed by a nul byte; returns
/// the offset it was written at and the 8-aligned offset after it.
pub fn strptr(s: &String, offset: usize, mem: &mut Vec<u8>) -> (r: (usize, usize))
    requires
        offset + spec_str_bytes(*s).len() + 8 <= old(mem)@.len(),
    ensures
        r.0 == offset,
        r.1 == spec_arg_next(offset as int, spec_str_bytes(*s).len() as int),
        r.1 <= old(mem)@.len(),
        final(mem)@ == spec_splice(
            spec_splice(old(mem)@, offset as int, spec_str_bytes(*s)),
            offset + spec_str_bytes(*s).len(),
            seq![0u8],
        ),
{
    let ml = mem.len();
    let bs = s.as_str().as_bytes();
    let n = bs.len();
    let mut k: usize = 0;
    while k < n
        invariant
            0 <= k <= n,
            n == spec_str_bytes(*s).len(),
            ml == old(mem)@.len(),
            offset + n + 8 <= mem@.len(),
            mem@.len() == old(mem)@.len(),
            forall|t: int|
                0 <= t < mem@.len() ==> mem@[t] == (if offset <= t < offset + k {
                    spec_str_bytes(*s)[t - offset]
                } else {
                    old(mem)@[t]
                }),
            bs@ == spec_str_bytes(*s),
        decreases n - k,
    {
        mem.set(offset + k, bs[k]);
        k = k + 1;
    }
    mem.set(offset + n, 0u8);
    proof {
        assert(final(mem)@ =~= spec_splice(
            spec_splice(old(mem)@, offset as int, spec_str_bytes(*s)),
            offset + spec_str_bytes(*s).len(),
            seq![0u8],
        ));
        assert(n as int % 8 < 8 && n as int % 8 >= 0);
    }
    let pad = 8 - n % 8;
    (offset, offset + n + pad)
}

/// Writes the 8-byte pointer-table entries `{ptr, 0}` at `out`.
#[verifier::spinoff_prover]
#[verifier::rlimit(100)]
fn write_arg_table(mem: &mut Vec<u8>, out: usize, argv_ptrs: &Vec<usize>)
    requires
        out + 8 * argv_ptrs@.len() <= old(mem)@.len(),
        old(mem)@.len() <= usize::MAX,
    ensures
        final(mem)@.len() == old(mem)@.len(),
        forall|t: int|
            0 <= t < old(mem)@.len() && !(out <= t < out + 8 * argv_ptrs@.len()) ==> final(mem)@[t] == old(mem)@[t],
        forall|k: int|
            #![trigger argv_ptrs@[k]]
            0 <= k < argv_ptrs@.len() ==> final(mem)@.subrange(out + 8 * k, out + 8 * k + 4)
                == spec_u32_le_bytes(argv_ptrs@[k] as u32) && final(mem)@.subrange(
                out + 8 * k + 4,
                out + 8 * (k + 1),
            ) == spec_u32_le_bytes(0),
{
    let argc = argv_ptrs.len();
    let ghost mem0 = mem@;
    let mut j: usize = 0;
    while j < argc
        invariant
            0 <= j <= argc,
            argc == argv_ptrs@.len(),
            out + 8 * argc <= mem0.len(),
            mem0.len() <= usize::MAX,
            mem@.len() == mem0.len(),
            forall|t: int|
                0 <= t < mem0.len() && !(out <= t < out + 8 * argc) ==> mem@[t] == mem0[t],
            forall|k: int|
                0 <= k < j ==> (mem@.subrange(out + 8 * k, out + 8 * k + 4) == spec_u32_le_bytes(
                    (#[trigger] argv_ptrs@[k]) as u32,
                ) && mem@.subrange(out + 8 * k + 4, out + 8 * (k + 1)) == spec_u32_le_bytes(0)),
        decreases argc - j,
    {
        let ghost pre = mem@;
        let b = u32_as_u8_le(argv_ptrs[j] as u32);
        let z = u32_as_u8_le(0);
        let base = out + 8 * j;
        mem.set(base, b[0]);
        mem.set(base + 1, b[1]);
        mem.set(base + 2, b[2]);
        mem.set(base + 3, b[3]);
        mem.set(base + 4, z[0]);
        mem.set(base + 5, z[1]);
        mem.set(base + 6, z[2]);
        mem.set(base + 7, z[3]);
        proof {
            assert forall|k: int|
                0 <= k < j + 1 implies (mem@.subrange(out + 8 * k, out + 8 * k + 4)
                == spec_u32_le_bytes((#[trigger] argv_ptrs@[k]) as u32) && mem@.subrange(
                out + 8 * k + 4,
                out + 8 * (k + 1),
            ) == spec_u32_le_bytes(0)) by {
                if k < j {
                    assert(mem@.subrange(out + 8 * k, out + 8 * k + 4) =~= pre.subrange(
                        out + 8 * k,
                        out + 8 * k + 4,
                    ));
                    assert(mem@.subrange(out + 8 * k + 4, out + 8 * (k + 1)) =~= pre.subrange(
                        out + 8 * k + 4,
                        out + 8 * (k + 1),
                    ));
                } else {
                    assert(mem@.subrange(out + 8 * k, out + 8 * k + 4) =~= b@);
                    assert(mem@.subrange(out + 8 * k + 4, out + 8 * (k + 1)) =~= z@);
                }
            }
        }
        j = j + 1;
    }
}

/// Lays the argument vector out in the guest's memory: each string
/// nul-terminated and 8-aligned from offset 4096, then the table of 8-byte
/// `{offset, 0}` entries. Returns the argument count and the table's base.
#[verifier::rlimit(100)]
pub fn load_args_from_mem(args: Vec<String>, mem: &mut Vec<u8>) -> (r: (i32, i32))
    requires
        spec_args_end(args@.map_values(|s: String| spec_str_bytes(s)), ARGS_BASE as int) + 8
            * args@.len() <= old(mem)@.len(),
        old(mem)@.len() <= i32::MAX,
    ensures
        ({
            let views = args@.map_values(|s: String| spec_str_bytes(s));
            let argv = spec_args_end(views, ARGS_BASE as int);
            let offsets = spec_arg_offsets(views, ARGS_BASE as int);
            &&& r.0 == args@.len()
            &&& r.1 == argv
            &&& final(mem)@.len() == old(mem)@.len()
            &&& forall|k: int|
                #![trigger views[k]]
                0 <= k < views.len() ==> {
                    let off = offsets[k];
                    &&& final(mem)@.subrange(off, off + views[k].len()) == views[k]
                    &&& final(mem)@[off + views[k].len()] == 0u8
                    &&& final(mem)@.subrange(argv + 8 * k, argv + 8 * k + 4) == spec_u32_le_bytes(
                        offsets[k] as u32,
                    )
                    &&& final(mem)@.subrange(argv + 8 * k + 4, argv + 8 * (k + 1))
                        == spec_u32_le_bytes(0)
                }
            &&& forall|t: int|
                0 <= t < old(mem)@.len() && !(ARGS_BASE <= t < argv + 8 * args@.len()) ==> final(mem)@[t] == old(mem)@[t]
            &&& forall|t: int|
                (ARGS_BASE <= t < argv && (forall|k: int|
                    0 <= k < views.len() ==> !(offsets[k] <= t <= offsets[k] + (#[trigger] views[k]).len()))) ==> final(mem)@[t] == old(mem)@[t]
        }),
{
    let ghost views = args@.map_values(|s: String| spec_str_bytes(s));
    let ghost argv_g = spec_args_end(views, ARGS_BASE as int);
    let ghost offsets_g = spec_arg_offsets(views, ARGS_BASE as int);
    let argc = args.len();
    let mut offset: usize = ARGS_BASE;
    let mut argv_ptrs: Vec<usize> = Vec::new();
    let mut i: usize = 0;
    proof {
        lemma_args_end_grows(views, ARGS_BASE as int);
        lemma_arg_offsets_len(views, ARGS_BASE as int);
        assert(views.skip(0) =~= views);
        assert(offsets_g.skip(0) =~= offsets_g);
    }
    let ml = mem.len();
    while i < argc
        invariant
            0 <= i <= argc,
            argc == args@.len(),
            views == args@.map_values(|s: String| spec_str_bytes(s)),
            argv_g == spec_args_end(views, ARGS_BASE as int),
            offsets_g == spec_arg_offsets(views, ARGS_BASE as int),
            argv_g + 8 * argc <= old(mem)@.len(),
            mem@.len() == old(mem)@.len(),
            ml == old(mem)@.len(),
            offsets_g.len() == argc,
            ARGS_BASE <= offset,
            spec_args_end(views.skip(i as int), offset as int) == argv_g,
            spec_arg_offsets(views.skip(i as int), offset as int) == offsets_g.skip(i as int),
            argv_ptrs@.len() == i,
            forall|k: int| 0 <= k < i ==> argv_ptrs@[k] == offsets_g[k],
            forall|k: int|
                #![trigger views[k]]
                0 <= k < i ==> {
                    let off = offsets_g[k];
                    &&& off + views[k].len() < offset
                    &&& mem@.subrange(off, off + views[k].len()) == views[k]
                    &&& mem@[off + views[k].len()] == 0u8
                },
            forall|t: int|
                0 <= t < old(mem)@.len() && !(ARGS_BASE <= t < offset) ==> mem@[t] == old(mem)@[t],
            forall|t: int|
                (ARGS_BASE <= t < offset && (forall|k: int|
                    0 <= k < i ==> !(offsets_g[k] <= t <= offsets_g[k] + (#[trigger] views[k]).len()))) ==> mem@[t] == old(mem)@[t],
        decreases argc - i,
    {
        proof {
            lemma_args_end_grows(
                views.skip(i as int).drop_first(),
                spec_arg_next(offset as int, views[i as int].len() as int),
            );
            assert(views.skip(i as int).first() == views[i as int]);
            assert(views.skip(i as int).drop_first() =~= views.skip(i as int + 1));
            assert(offsets_g.skip(i as int)[0] == offsets_g[i as int]);
        }
        let ghost pre_mem = mem@;
        let (ptr, o) = strptr(&args[i], offset, mem);
        argv_ptrs.push(ptr);
        proof {
            let off_i = offset as int;
            let len_i = views[i as int].len() as int;
            assert forall|k: int|
                #![trigger views[k]]
                0 <= k < i + 1 implies {
                let off = offsets_g[k];
                &&& off + views[k].len() < o as int
                &&& mem@.subrange(off, off + views[k].len()) == views[k]
                &&& mem@[off + views[k].len()] == 0u8
            } by {
                if k < i {
                    assert(offsets_g[k] + views[k].len() < off_i);
                    assert(mem@.subrange(offsets_g[k], offsets_g[k] + views[k].len()) =~= pre_mem
                        .subrange(offsets_g[k], offsets_g[k] + views[k].len()));
                } else {
                    assert(offsets_g[k] == off_i);
                    assert(mem@.subrange(off_i, off_i + len_i) =~= views[k]);
                }
            }
            assert(offsets_g.skip(i as int).drop_first() =~= offsets_g.skip(i as int + 1));
        }
        offset = o;
        i = i + 1;
    }
    let out = offset;
    proof {
        assert(views.skip(argc as int) =~= Seq::<Seq<u8>>::empty());
        assert(out == argv_g);
    }
    let ghost mem_strings = mem@;
    write_arg_table(mem, out, &argv_ptrs);
    proof {
        assert forall|k: int|
            #![trigger views[k]]
            0 <= k < views.len() implies {
            let off = offsets_g[k];
            &&& final(mem)@.subrange(off, off + views[k].len()) == views[k]
            &&& final(mem)@[off + views[k].len()] == 0u8
        } by {
            let off = offsets_g[k];
            assert(off + views[k].len() < out);
            assert(final(mem)@.subrange(off, off + views[k].len()) =~= mem_strings.subrange(
                off,
                off + views[k].len(),
            ));
        }
    }
    (argc as i32, out as i32)
}

/// A single argument `s` is written, nul-terminated, at offset 4096, and
/// the table base handed back as `argv` is 4096 plus the string's length
/// rounded up past its nul to the next 8-boundary.
pub proof fn lemma_single_arg_layout(s: Seq<u8>)
    ensures
        spec_args_end(seq![s], ARGS_BASE as int) == ARGS_BASE + s.len() + (8 - s.len() % 8),
        spec_arg_offsets(seq![s], ARGS_BASE as int) == seq![ARGS_BASE as int],
{
    reveal_with_fuel(spec_args_end, 3);
    reveal_with_fuel(spec_arg_offsets, 3);
    let one = seq![s];
    assert(one.drop_first() =~= Seq::<Seq<u8>>::empty());
    assert(one.first() == s);
    assert(spec_args_end(one, ARGS_BASE as int) == spec_args_end(
        one.drop_first(),
        spec_arg_next(ARGS_BASE as int, s.len() as int),
    ));
    assert(spec_arg_offsets(one, ARGS_BASE as int) =~= seq![ARGS_BASE as int]);
}

} // verus!
