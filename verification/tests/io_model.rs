//! The plain-value I/O model: readiness bits, the IPv4 address encoding,
//! the open-mode bitmask, response ids, and the chroot'd path.

use wasabi::io::{
    addr_to_bytes, event_to_ints, open_options, ChrootPath, IoError, NetEvent, Response, SockAddr,
    O_CREAT, O_RDWR, O_TRUNC, O_WRONLY,
};

#[test]
fn test_addr_to_bytes() {
    let mut mem = vec![0u8; 6];
    let addr = SockAddr::V4 { a: 1, b: 2, c: 3, d: 4, port: 100 };
    addr_to_bytes(&addr, &mut mem).unwrap();
    assert_eq!(mem, [1, 2, 3, 4, 100, 0]);

    let mut mem = vec![0u8; 6];
    let addr = SockAddr::V4 { a: 127, b: 0, c: 0, d: 1, port: 34254 };
    addr_to_bytes(&addr, &mut mem).unwrap();
    assert_eq!(u16::from(mem[4]) | (u16::from(mem[5]) << 8), 34254u16);
}

#[test]
fn ipv6_is_not_supported() {
    let mut mem = vec![0u8; 6];
    assert_eq!(
        addr_to_bytes(&SockAddr::V6, &mut mem),
        Err(IoError::Ipv6NotSupported)
    );
    assert_eq!(mem, [0, 0, 0, 0, 0, 0]);
}

#[test]
fn readiness_bits() {
    let e = NetEvent { token: 3, readable: true, writable: false, hup: false, error: true };
    assert_eq!(event_to_ints(&e), (3, 9));
    let e = NetEvent { token: 0, readable: false, writable: true, hup: true, error: false };
    assert_eq!(event_to_ints(&e), (0, 6));
}

#[test]
fn open_mode_policy() {
    let o = open_options(O_RDWR | O_CREAT);
    assert!(o.read && o.write && o.create && !o.truncate && !o.append);
    let o = open_options(O_WRONLY | O_TRUNC);
    assert!(!o.read && o.write && o.truncate);
    let o = open_options(0);
    assert!(o.read && !o.write && !o.create);
}

#[test]
fn response_ids() {
    assert_eq!(Response::Success { id: 9 }.id(), Some(9));
    assert_eq!(Response::Written { id: 4, len: 2 }.id(), Some(4));
    let e = NetEvent { token: 1, readable: true, writable: false, hup: false, error: false };
    assert_eq!(Response::Event(e).id(), None);
}

#[test]
fn ensure_chroot() {
    let mut p = ChrootPath::new();
    assert_eq!(p.cwd(), b"/".to_vec());
    p.chdir(b"../../../");
    assert_eq!(p.cwd(), b"/".to_vec());
}

#[test]
fn chroot_resolves_dots() {
    let mut p = ChrootPath::new();
    p.chdir(b"/a/b");
    assert_eq!(p.cwd(), b"/a/b".to_vec());
    p.chdir(b"../c/./d");
    assert_eq!(p.cwd(), b"/a/c/d".to_vec());
    p.chdir(b"/");
    assert_eq!(p.cwd(), b"/".to_vec());
    p.chdir(b"x/../../..");
    assert_eq!(p.cwd(), b"/".to_vec());
}
