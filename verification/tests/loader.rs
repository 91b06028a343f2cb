use stack_vm::loader::words_from_bytes;
use stack_vm::Vm;

/// The bytes of the file of a program.
fn file_of(words: &[i32]) -> Vec<u8> {
    let mut bytes = Vec::new();
    for w in words {
        bytes.extend_from_slice(&w.to_be_bytes());
    }
    bytes
}

fn fib27() -> Vec<i32> {
    vec![
        0, 27, 6, 4, 1, 10, 3, 0, 8, 28, 3, 0, 0, -1, 1, 8, 25, 3, 0, 0, -1, 1, 6, -16, 1, 3, 1, 0,
        -2, 1, 6, -24, 1, 1, 7, 1, 0, 0, 7, 1, 0, 1, 7, 1,
    ]
}

#[test]
fn read_file() {
    let bytes = file_of(&fib27());
    assert_eq!(bytes.len(), 4 * 44);
    let res = words_from_bytes(&bytes);
    assert_eq!(res, fib27());
}

#[test]
fn run_file() {
    let mut vm = Vm::new_from_bytes(&file_of(&fib27()));
    assert_eq!(vm.pc(), 0);
    assert_eq!(vm.sp(), 0);
    assert_eq!(vm.code(), fib27());
    assert_eq!(vm.run(), Ok(()));
    let res = vm.get_result();
    println!("RES: {:?}", res);
    assert_eq!(res, Ok(196418))
}

#[test]
fn words_are_big_endian() {
    assert_eq!(words_from_bytes(&[0, 0, 0, 1]), vec![1]);
    assert_eq!(words_from_bytes(&[0, 0, 1, 0]), vec![256]);
    assert_eq!(words_from_bytes(&[0, 1, 0, 0]), vec![65536]);
    assert_eq!(words_from_bytes(&[1, 0, 0, 0]), vec![16777216]);
    assert_eq!(words_from_bytes(&[0x12, 0x34, 0x56, 0x78]), vec![0x12345678]);
    assert_eq!(words_from_bytes(&[1, 2, 3, 4, 5, 6, 7, 8]), vec![0x01020304, 0x05060708]);
}

#[test]
fn words_are_signed() {
    assert_eq!(words_from_bytes(&[0xff, 0xff, 0xff, 0xff]), vec![-1]);
    assert_eq!(words_from_bytes(&[0x80, 0, 0, 0]), vec![i32::MIN]);
    assert_eq!(words_from_bytes(&[0x7f, 0xff, 0xff, 0xff]), vec![i32::MAX]);
    assert_eq!(words_from_bytes(&[0xff, 0xff, 0xff, 0xf0]), vec![-16]);
}

#[test]
fn trailing_bytes_are_dropped() {
    assert_eq!(words_from_bytes(&[]), Vec::<i32>::new());
    assert_eq!(words_from_bytes(&[1]), Vec::<i32>::new());
    assert_eq!(words_from_bytes(&[1, 2, 3]), Vec::<i32>::new());
    assert_eq!(words_from_bytes(&[0, 0, 0, 7, 9]), vec![7]);
    assert_eq!(words_from_bytes(&[0, 0, 0, 7, 0, 0, 0]), vec![7]);
    assert_eq!(words_from_bytes(&[0, 0, 0, 7, 0, 0, 0, 8, 1, 1]), vec![7, 8]);
}

#[test]
fn loading_checks_nothing_else() {
    let mut vm = Vm::new_from_bytes(&[0, 0, 0, 99, 0xff]);
    assert_eq!(vm.code(), &[99]);
    assert_eq!(vm.exec_op(), Err(stack_vm::Fault::UnknownOpcode(99)));
}
