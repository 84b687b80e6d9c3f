//! The argument-vector layout the guest reads at startup.

use wasabi::args::load_args_from_mem;

#[test]
fn test_args_and_ev() {
    let mut mem: Vec<u8> = vec![0; 10000];
    let args = vec![
        "/var/folders/nn/q8p1tdps0jlfnll5nc8ydmwc0000gn/T/go-build020729976/b001/exe/main"
            .to_string(),
    ];
    let (argc, argv) = load_args_from_mem(args, &mut mem);
    let answer: Vec<u8> = vec![
        47, 118, 97, 114, 47, 102, 111, 108, 100, 101, 114, 115, 47, 110, 110, 47, 113, 56,
        112, 49, 116, 100, 112, 115, 48, 106, 108, 102, 110, 108, 108, 53, 110, 99, 56, 121,
        100, 109, 119, 99, 48, 48, 48, 48, 103, 110, 47, 84, 47, 103, 111, 45, 98, 117, 105,
        108, 100, 48, 50, 48, 55, 50, 57, 57, 55, 54, 47, 98, 48, 48, 49, 47, 101, 120, 101,
        47, 109, 97, 105, 110, 0, 0, 0, 0, 0, 0, 0, 0, 0, 16, 0, 0, 0, 0, 0, 0,
    ];
    assert_eq!(&mem[4096..4192], &answer[..]);
    assert_eq!(argc, 1);
    assert_eq!(argv, 4184);
}

#[test]
fn single_short_arg_layout() {
    let mut mem: Vec<u8> = vec![0xAA; 8192];
    let (argc, argv) = load_args_from_mem(vec!["Hello".to_string()], &mut mem);
    assert_eq!(argc, 1);
    // 5 bytes, a nul, then padding to the next 8-boundary
    assert_eq!(argv, 4096 + 8);
    assert_eq!(&mem[4096..4102], b"Hello\0");
    // the table holds the string's offset as a little-endian word and pad
    assert_eq!(&mem[4104..4112], &[0, 16, 0, 0, 0, 0, 0, 0]);
    // bytes before the layout area are untouched
    assert_eq!(mem[4095], 0xAA);
}

#[test]
fn empty_args_put_table_at_base() {
    let mut mem: Vec<u8> = vec![0; 8192];
    let (argc, argv) = load_args_from_mem(vec![], &mut mem);
    assert_eq!(argc, 0);
    assert_eq!(argv, 4096);
}
