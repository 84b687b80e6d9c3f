//! The data the I/O layer exchanges with the event loop, as plain values:
//! responses coming back from the pollers and workers, requests the
//! host-call layer asks them to submit, the readiness bitmask, the IPv4
//! address encoding, the open-mode bitmask, and the chroot'd path state.
//!
//! The sockets, files and worker threads themselves live outside the
//! library; every response is delivered here as a finished value.

use vstd::prelude::*;

verus! {

/// Open-for-writing-only bit of the guest's open-mode bitmask.
pub const O_WRONLY: i64 = 1;

/// Open-for-reading-and-writing bit.
pub const O_RDWR: i64 = 2;

/// Create-if-missing bit.
pub const O_CREAT: i64 = 64;

/// Fail-if-existing bit.
pub const O_EXCL: i64 = 128;

/// Truncate-on-open bit.
pub const O_TRUNC: i64 = 512;

/// Append bit.
pub const O_APPEND: i64 = 1024;

/// A readiness notification from the poller: the registered token and the
/// observed conditions.
#[derive(Debug, Clone, Copy, PartialEq, Eq, Structural)]
pub struct NetEvent {
    pub token: usize,
    pub readable: bool,
    pub writable: bool,
    pub hup: bool,
    pub error: bool,
}

/// The bit array a readiness event hands to the guest: bit 0 readable,
/// bit 1 writable, bit 2 hang-up, bit 3 error.
pub open spec fn spec_event_bits(e: NetEvent) -> int {
    (if e.readable {
        1i64
    } else {
        0i64
    }) + (if e.writable {
        2i64
    } else {
        0i64
    }) + (if e.hup {
        4i64
    } else {
        0i64
    }) + (if e.error {
        8i64
    } else {
        0i64
    })
}

/// Converts a readiness event to the token and condition bit array the
/// guest's network callback receives.
pub fn event_to_ints(event: &NetEvent) -> (r: (i64, i64))
    ensures
        r.0 == event.token as i64,
        r.1 == spec_event_bits(*event),
{
    let state: i64 = (if event.readable {
        1i64
    } else {
        0i64
    }) + (if event.writable {
        2i64
    } else {
        0i64
    }) + (if event.hup {
        4i64
    } else {
        0i64
    }) + (if event.error {
        8i64
    } else {
        0i64
    });
    (event.token as i64, state)
}

/// How the I/O layer classifies a failure, driving which error object the
/// guest sees.
#[derive(Debug, Clone, Copy, PartialEq, Eq, Structural)]
pub enum ErrorKind {
    NotFound,
    AlreadyExists,
    Other,
}

/// A finished asynchronous operation, echoing the callback id it was
/// submitted under.
#[derive(Debug)]
pub enum Response {
    Error { id: i64, msg: String, kind: ErrorKind },
    Ips { id: i64, ips: Vec<(u8, u8, u8, u8)> },
    Metadata { id: i64, is_dir: bool },
    FileRef { id: i64, fd: usize },
    Read { id: i64, len: usize, buf: Vec<u8>, address: usize },
    Written { id: i64, len: usize },
    Success { id: i64 },
    Event(NetEvent),
}

/// The callback id a response is bound to; a readiness event has none.
pub open spec fn spec_response_id(r: Response) -> Option<i64> {
    match r {
        Response::Error { id, .. } => Some(id),
        Response::Ips { id, .. } => Some(id),
        Response::Metadata { id, .. } => Some(id),
        Response::FileRef { id, .. } => Some(id),
        Response::Read { id, .. } => Some(id),
        Response::Written { id, .. } => Some(id),
        Response::Success { id, .. } => Some(id),
        Response::Event(_) => None,
    }
}

impl Response {
    /// The callback id this response is bound to, if any.
    pub fn id(&self) -> (r: Option<i64>)
        ensures
            r == spec_response_id(*self),
    {
        match self {
            Response::Error { id, .. } => Some(*id),
            Response::Ips { id, .. } => Some(*id),
            Response::Metadata { id, .. } => Some(*id),
            Response::FileRef { id, .. } => Some(*id),
            Response::Read { id, .. } => Some(*id),
            Response::Written { id, .. } => Some(*id),
            Response::Success { id } => Some(*id),
            Response::Event(_) => None,
        }
    }
}

/// An asynchronous operation the host-call layer asks the driver to submit
/// to the I/O workers, keyed by the guest's callback id.
#[derive(Debug)]
pub enum IoRequest {
    Stdout { id: i64, buf: Vec<u8> },
    FsOpen { id: i64, path: String, openmode: i64, perm: i32 },
    FsRead { id: i64, fd: usize, address: usize, len: usize },
    Metadata { id: i64, fd: usize },
    LookupIp { id: i64, host: String },
}

/// How a file is to be opened, decoded from the guest's bitmask.
#[derive(Debug, Clone, Copy, PartialEq, Eq, Structural)]
pub struct OpenOptions {
    pub read: bool,
    pub write: bool,
    pub append: bool,
    pub create: bool,
    pub truncate: bool,
}

/// Decodes the open-mode bitmask: read-write wins over write-only, and the
/// default is read-only; the remaining bits map one to one.
pub fn open_options(openmode: i64) -> (r: OpenOptions)
    ensures
        (openmode & O_RDWR > 0) ==> r.read && r.write,
        (!(openmode & O_RDWR > 0) && openmode & O_WRONLY > 0) ==> !r.read && r.write,
        (!(openmode & O_RDWR > 0) && !(openmode & O_WRONLY > 0)) ==> r.read && !r.write,
        r.append == (openmode & O_APPEND > 0),
        r.create == (openmode & O_CREAT > 0),
        r.truncate == (openmode & O_TRUNC > 0),
{
    let (read, write) = if openmode & O_RDWR > 0 {
        (true, true)
    } else if openmode & O_WRONLY > 0 {
        (false, true)
    } else {
        (true, false)
    };
    OpenOptions {
        read,
        write,
        append: openmode & O_APPEND > 0,
        create: openmode & O_CREAT > 0,
        truncate: openmode & O_TRUNC > 0,
    }
}

/// A socket address as the guest exchanges it: only IPv4 is supported.
#[derive(Debug, Clone, PartialEq, Eq, Structural)]
pub enum SockAddr {
    V4 { a: u8, b: u8, c: u8, d: u8, port: u16 },
    V6,
}

/// How an I/O helper fails.
#[derive(Debug, Clone, Copy, PartialEq, Eq, Structural)]
pub enum IoError {
    Ipv6NotSupported,
}

/// Writes an IPv4 socket address into the first six bytes of `buf`: the
/// four octets, then the port little-endian.
pub fn addr_to_bytes(addr: &SockAddr, buf: &mut Vec<u8>) -> (r: Result<(), IoError>)
    requires
        old(buf)@.len() >= 6,
    ensures
        final(buf)@.len() == old(buf)@.len(),
        (*addr) matches SockAddr::V4 { a, b, c, d, port } ==> r is Ok && final(buf)@ == old(
            buf,
        )@.update(0, a).update(1, b).update(2, c).update(3, d).update(
            4,
            (port & 0xff) as u8,
        ).update(5, ((port >> 8) & 0xff) as u8),
        (*addr) is V6 ==> r is Err && final(buf)@ == old(buf)@,
{
    match addr {
        SockAddr::V4 { a, b, c, d, port } => {
            buf.set(0, *a);
            buf.set(1, *b);
            buf.set(2, *c);
            buf.set(3, *d);
            buf.set(4, (*port & 0xff) as u8);
            buf.set(5, ((*port >> 8) & 0xff) as u8);
            Ok(())
        },
        SockAddr::V6 => Err(IoError::Ipv6NotSupported),
    }
}

/// The effect of one path component: empty and `.` do nothing, `..` steps
/// up (stopping at the root), anything else descends.
pub open spec fn spec_apply_component(segs: Seq<Seq<u8>>, comp: Seq<u8>) -> Seq<Seq<u8>> {
    if comp.len() == 0 || comp == seq![46u8] {
        segs
    } else if comp == seq![46u8, 46u8] {
        if segs.len() == 0 {
            segs
        } else {
            segs.drop_last()
        }
    } else {
        segs.push(comp)
    }
}

/// Walks the path bytes, splitting on `/` and applying each component.
pub open spec fn spec_resolve_walk(segs: Seq<Seq<u8>>, cur: Seq<u8>, rest: Seq<u8>) -> Seq<
    Seq<u8>,
>
    decreases rest.len(),
{
    if rest.len() == 0 {
        spec_apply_component(segs, cur)
    } else if rest[0] == 47u8 {
        spec_resolve_walk(spec_apply_component(segs, cur), Seq::empty(), rest.drop_first())
    } else {
        spec_resolve_walk(segs, cur.push(rest[0]), rest.drop_first())
    }
}

/// The segments a path resolves to against the current segments: an
/// absolute path starts over at the root, and `..` can never escape it.
pub open spec fn spec_resolve(segs: Seq<Seq<u8>>, path: Seq<u8>) -> Seq<Seq<u8>> {
    if path.len() > 0 && path[0] == 47u8 {
        spec_resolve_walk(Seq::empty(), Seq::empty(), path.drop_first())
    } else {
        spec_resolve_walk(segs, Seq::empty(), path)
    }
}

/// The byte form of a segment list: `/` for the root, else each segment
/// prefixed by `/`.
pub open spec fn spec_join_segments(segs: Seq<Seq<u8>>) -> Seq<u8>
    decreases segs.len(),
{
    if segs.len() == 0 {
        Seq::empty()
    } else {
        spec_join_segments(segs.drop_last()) + seq![47u8] + segs.last()
    }
}

/// The path bytes of a segment list, `/` when empty.
pub open spec fn spec_path_bytes(segs: Seq<Seq<u8>>) -> Seq<u8> {
    if segs.len() == 0 {
        seq![47u8]
    } else {
        spec_join_segments(segs)
    }
}

/// The chroot'd working directory: a path below a root it cannot escape,
/// held as its segments.
#[derive(Debug)]
pub struct ChrootPath {
    pub segments: Vec<Vec<u8>>,
}

impl ChrootPath {
    /// Starts at the root.
    pub fn new() -> (r: Self)
        ensures
            r.segments@ == Seq::<Vec<u8>>::empty(),
    {
        ChrootPath { segments: Vec::new() }
    }

    /// The segment views.
    pub open spec fn view_segs(&self) -> Seq<Seq<u8>> {
        self.segments@.map_values(|s: Vec<u8>| s@)
    }

    /// Resolves `path` against the current directory without changing it.
    pub fn resolve_path(&self, path: &[u8]) -> (r: Vec<Vec<u8>>)
        ensures
            r@.map_values(|s: Vec<u8>| s@) == spec_resolve(self.view_segs(), path@),
    {
        let mut segs: Vec<Vec<u8>> = Vec::new();
        let mut start: usize = 0;
        let n = path.len();
        if n > 0 && path[0] == 47u8 {
            start = 1;
        } else {
            let m = self.segments.len();
            let mut k: usize = 0;
            while k < m
                invariant
                    0 <= k <= m,
                    m == self.segments@.len(),
                    segs@.len() == k,
                    forall|t: int| 0 <= t < k ==> segs@[t]@ == self.segments@[t]@,
                decreases m - k,
            {
                segs.push(self.segments[k].clone());
                k = k + 1;
            }
            proof {
                assert(segs@.map_values(|s: Vec<u8>| s@) =~= self.view_segs());
            }
        }
        let ghost segs0 = segs@.map_values(|s: Vec<u8>| s@);
        let ghost walk_rest = path@.subrange(start as int, n as int);
        proof {
            if n > 0 && path@[0] == 47u8 {
                assert(segs0 =~= Seq::<Seq<u8>>::empty());
            }
        }
        let mut cur: Vec<u8> = Vec::new();
        let mut i: usize = start;
        while i < n
            invariant
                start <= i <= n,
                n == path@.len(),
                spec_resolve_walk(
                    segs@.map_values(|s: Vec<u8>| s@),
                    cur@,
                    path@.subrange(i as int, n as int),
                ) == spec_resolve_walk(segs0, Seq::empty(), walk_rest),
            decreases n - i,
        {
            let ghost pre_rest = path@.subrange(i as int, n as int);
            proof {
                assert(pre_rest[0] == path@[i as int]);
                assert(pre_rest.drop_first() =~= path@.subrange(i as int + 1, n as int));
            }
            let b = path[i];
            if b == 47u8 {
                apply_component(&mut segs, &cur);
                cur = Vec::new();
            } else {
                cur.push(b);
            }
            i = i + 1;
        }
        proof {
            assert(path@.subrange(n as int, n as int) =~= Seq::<u8>::empty());
        }
        let ghost pre_final = segs@.map_values(|s: Vec<u8>| s@);
        apply_component(&mut segs, &cur);
        proof {
            assert(segs@.map_values(|s: Vec<u8>| s@) == spec_apply_component(pre_final, cur@));
            assert(spec_resolve_walk(pre_final, cur@, Seq::<u8>::empty())
                == spec_apply_component(pre_final, cur@));
            if path@.len() > 0 && path@[0] == 47u8 {
                assert(walk_rest =~= path@.drop_first());
            } else {
                assert(walk_rest =~= path@);
            }
            assert(segs@.map_values(|s: Vec<u8>| s@) == spec_resolve(self.view_segs(), path@));
        }
        segs
    }

    /// Changes the current directory to `path` resolved against it.
    pub fn chdir(&mut self, path: &[u8])
        ensures
            final(self).view_segs() == spec_resolve(old(self).view_segs(), path@),
    {
        let segs = self.resolve_path(path);
        self.segments = segs;
    }

    /// The current directory as path bytes, `/` at the root.
    pub fn cwd(&self) -> (r: Vec<u8>)
        ensures
            r@ == spec_path_bytes(self.view_segs()),
    {
        let m = self.segments.len();
        if m == 0 {
            let mut out: Vec<u8> = Vec::new();
            out.push(47u8);
            proof {
                assert(out@ =~= seq![47u8]);
            }
            return out;
        }
        let mut out: Vec<u8> = Vec::new();
        let mut k: usize = 0;
        while k < m
            invariant
                0 <= k <= m,
                m == self.segments@.len(),
                out@ == spec_join_segments(self.view_segs().take(k as int)),
            decreases m - k,
        {
            let ghost pre = out@;
            out.push(47u8);
            let seg = &self.segments[k];
            let mut t: usize = 0;
            let sl = seg.len();
            while t < sl
                invariant
                    0 <= t <= sl,
                    sl == seg@.len(),
                    seg@ == self.segments@[k as int]@,
                    k < self.segments@.len(),
                    out@ == pre + seq![47u8] + seg@.take(t as int),
                decreases sl - t,
            {
                out.push(seg[t]);
                proof {
                    assert(pre + seq![47u8] + seg@.take(t as int) + seq![seg@[t as int]] =~= pre
                        + seq![47u8] + seg@.take(t as int + 1));
                }
                t = t + 1;
            }
            k = k + 1;
            proof {
                assert(seg@.take(sl as int) =~= seg@);
                assert(self.view_segs().take(k as int).drop_last() =~= self.view_segs().take(
                    k as int - 1,
                ));
                assert(self.view_segs().take(k as int).last() == seg@);
            }
        }
        proof {
            assert(self.view_segs().take(m as int) =~= self.view_segs());
        }
        out
    }
}

/// Applies one finished component to the segment stack.
fn apply_component(segs: &mut Vec<Vec<u8>>, comp: &Vec<u8>)
    ensures
        final(segs)@.map_values(|s: Vec<u8>| s@) == spec_apply_component(
            old(segs)@.map_values(|s: Vec<u8>| s@),
            comp@,
        ),
{
    let ghost pre = segs@.map_values(|s: Vec<u8>| s@);
    if comp.len() == 0 {
        return ;
    }
    if comp.len() == 1 && comp[0] == 46u8 {
        proof {
            assert(comp@ =~= seq![46u8]);
        }
        return ;
    }
    if comp.len() == 2 && comp[0] == 46u8 && comp[1] == 46u8 {
        proof {
            assert(comp@ =~= seq![46u8, 46u8]);
        }
        if segs.len() > 0 {
            segs.pop();
            proof {
                assert(final(segs)@.map_values(|s: Vec<u8>| s@) =~= pre.drop_last());
            }
        }
        return ;
    }
    proof {
        assert(comp@ != seq![46u8] && comp@ != seq![46u8, 46u8]) by {
            if comp@.len() == 1 {
                assert(comp@[0] != 46u8);
            }
            if comp@.len() == 2 {
                assert(comp@[0] != 46u8 || comp@[1] != 46u8);
            }
        }
    }
    segs.push(comp.clone());
    proof {
        assert(final(segs)@.map_values(|s: Vec<u8>| s@) =~= pre.push(comp@));
    }
}

} // verus!
