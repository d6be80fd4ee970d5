use xrpl_hooks::error::Error;
use xrpl_hooks::guard::GuardMeter;
use xrpl_hooks::helpers::amount_to_drops;
use xrpl_hooks::helpers::buffer_zeroize;
use xrpl_hooks::helpers::drops_to_amount;
use xrpl_hooks::helpers::is_buffer_equal;
use xrpl_hooks::helpers::is_buffer_equal_20;
use xrpl_hooks::helpers::is_buffer_equal_32;
use xrpl_hooks::helpers::is_txn_ingoing;
use xrpl_hooks::helpers::is_txn_outgoing;
use xrpl_hooks::helpers::read_u32_le;
use xrpl_hooks::helpers::read_u64_le;
use xrpl_hooks::result::Result;

#[test]
fn is_buffer_equal_20_test() {
    const ACCOUNT_ID: [u8; 20] = [
        1, 2, 3, 4, 5, 6, 7, 8, 9, 10, 11, 12, 13, 14, 15, 16, 17, 18, 19, 20,
    ];
    const ACCOUNT_ID_2: [u8; 20] = [
        0, 2, 3, 4, 5, 6, 7, 8, 9, 10, 11, 12, 13, 14, 15, 16, 17, 18, 19, 20,
    ];
    const ACCOUNT_ID_3: [u8; 21] = [
        1, 2, 3, 4, 5, 6, 7, 8, 9, 10, 11, 12, 13, 14, 15, 16, 17, 18, 19, 20, 21,
    ];
    assert_eq!(is_buffer_equal_20(&ACCOUNT_ID, &ACCOUNT_ID), true);
    assert_eq!(is_buffer_equal_20(&ACCOUNT_ID, &ACCOUNT_ID_2), false);
    assert_eq!(is_buffer_equal_20(&ACCOUNT_ID, &ACCOUNT_ID_3), true);
}

#[test]
fn is_buffer_equal_32_test() {
    const DATA_1: [u8; 32] = [
        1, 2, 3, 4, 5, 6, 7, 8, 9, 10, 11, 12, 13, 14, 15, 16, 17, 18, 19, 20, 21, 22, 23, 24, 25,
        26, 27, 28, 29, 30, 31, 32,
    ];
    const DATA_2: [u8; 32] = [
        0, 2, 3, 4, 5, 6, 7, 8, 9, 10, 11, 12, 13, 14, 15, 16, 17, 18, 19, 20, 21, 22, 23, 24, 25,
        26, 27, 28, 29, 30, 31, 32,
    ];
    const DATA_3: [u8; 33] = [
        1, 2, 3, 4, 5, 6, 7, 8, 9, 10, 11, 12, 13, 14, 15, 16, 17, 18, 19, 20, 21, 22, 23, 24, 25,
        26, 27, 28, 29, 30, 31, 32, 33,
    ];
    assert_eq!(is_buffer_equal_32(&DATA_1, &DATA_1), true);
    assert_eq!(is_buffer_equal_32(&DATA_1, &DATA_2), false);
    assert_eq!(is_buffer_equal_32(&DATA_1, &DATA_3), true);
}

#[test]
fn amount_to_drops_test() {
    let amount_buf: [u8; 8] = [0b10000000, 0, 0, 0, 0, 0, 0, 0];
    assert!(amount_to_drops(&amount_buf).is_err());
    let amount_buf: [u8; 8] = [0, 0, 0, 0, 0, 0, 0, 0];
    match amount_to_drops(&amount_buf) {
        Result::Okay(amount) => assert_eq!(amount, 0),
        Result::Fail(_) => (),
    }
    let amount_buf: [u8; 8] = [0, 0, 0, 0, 0, 0, 0, 1];
    match amount_to_drops(&amount_buf) {
        Result::Okay(amount) => assert_eq!(amount, 1),
        Result::Fail(_) => (),
    }
    let amount_buf: [u8; 8] = [0, 0, 0, 0, 0, 0, 0, 100];
    match amount_to_drops(&amount_buf) {
        Result::Okay(amount) => assert_eq!(amount, 100),
        Result::Fail(_) => (),
    }
    let amount_buf: [u8; 8] = [0, 0, 0, 0, 0x05, 0xF5, 0xE1, 0];
    match amount_to_drops(&amount_buf) {
        Result::Okay(amount) => assert_eq!(amount, 100000000),
        Result::Fail(_) => (),
    }
    let amount_buf: [u8; 8] = [0x01, 0x63, 0x45, 0x78, 0x5D, 0x8A, 0, 0];
    match amount_to_drops(&amount_buf) {
        Result::Okay(amount) => assert_eq!(amount, 100000000000000000),
        Result::Fail(_) => (),
    }
}

#[test]
fn drops_to_amount_test() {
    assert!(drops_to_amount(0x8000000000000000).is_err());
    let amount_buf: [u8; 8] = [0b01000000, 0, 0, 0, 0, 0, 0, 0];
    match drops_to_amount(0) {
        Result::Okay(amount) => assert_eq!(amount, amount_buf),
        Result::Fail(_) => (),
    }
    let amount_buf: [u8; 8] = [0b01000000, 0, 0, 0, 0, 0, 0, 1];
    match drops_to_amount(1) {
        Result::Okay(amount) => assert_eq!(amount, amount_buf),
        Result::Fail(_) => (),
    }
    let amount_buf: [u8; 8] = [0b01000000, 0, 0, 0, 0, 0, 0, 100];
    match drops_to_amount(100) {
        Result::Okay(amount) => assert_eq!(amount, amount_buf),
        Result::Fail(_) => (),
    }
    let amount_buf: [u8; 8] = [0b01000000, 0, 0, 0, 0x05, 0xF5, 0xE1, 0];
    match drops_to_amount(100000000) {
        Result::Okay(amount) => assert_eq!(amount, amount_buf),
        Result::Fail(_) => (),
    }
    let amount_buf: [u8; 8] = [0b01000000 | 0x01, 0x63, 0x45, 0x78, 0x5D, 0x8A, 0, 0];
    match drops_to_amount(100000000000000000) {
        Result::Okay(amount) => assert_eq!(amount, amount_buf),
        Result::Fail(_) => (),
    }
}

#[test]
fn amount_drops_round_trip() {
    for drops in [0u64, 1, 99, 100000000, 100000000000000000, 0x3FFFFFFFFFFFFFFF] {
        let amount = match drops_to_amount(drops) {
            Result::Okay(a) => a,
            Result::Fail(_) => panic!("serialization refused"),
        };
        match amount_to_drops(&amount) {
            Result::Okay(back) => assert_eq!(back, drops),
            Result::Fail(_) => panic!("deserialization refused"),
        }
    }
}

#[test]
fn le_readers() {
    let buf: [u8; 12] = [0x78, 0x56, 0x34, 0x12, 0, 0, 0, 0, 0xFF, 0, 0, 0];
    assert_eq!(read_u32_le(&buf, 0), 0x12345678);
    assert_eq!(read_u64_le(&buf, 0), 0x12345678);
    assert_eq!(read_u64_le(&buf, 4), 0xFF00000000);
    assert_eq!(read_u32_le(&buf, 8), 0xFF);
}

#[test]
fn guarded_buffer_equal() {
    let mut meter = GuardMeter::new();
    let a: [u8; 4] = [1, 2, 3, 4];
    let b: [u8; 4] = [1, 2, 3, 4];
    let c: [u8; 4] = [1, 2, 9, 4];
    let d: [u8; 5] = [1, 2, 3, 4, 5];
    assert_eq!(is_buffer_equal::<100>(&mut meter, &a, &b), true);
    assert_eq!(is_buffer_equal::<101>(&mut meter, &a, &c), false);
    assert_eq!(is_buffer_equal::<102>(&mut meter, &a, &d), false);
}

#[test]
fn guarded_zeroize() {
    let mut meter = GuardMeter::new();
    let mut buf: Vec<u8> = vec![1, 2, 3, 4, 5];
    buffer_zeroize::<200>(&mut meter, &mut buf);
    assert_eq!(buf, vec![0, 0, 0, 0, 0]);
}

#[test]
fn txn_direction() {
    let hook: [u8; 20] = [7; 20];
    let same: [u8; 20] = [7; 20];
    let other: [u8; 20] = [8; 20];
    match is_txn_outgoing(&hook, &same) {
        Result::Okay(v) => assert!(v),
        Result::Fail(_) => panic!("rejected canonical identifiers"),
    }
    match is_txn_outgoing(&hook, &other) {
        Result::Okay(v) => assert!(!v),
        Result::Fail(_) => panic!("rejected canonical identifiers"),
    }
    match is_txn_ingoing(&hook, &other) {
        Result::Okay(v) => assert!(v),
        Result::Fail(_) => panic!("rejected canonical identifiers"),
    }
    let short: [u8; 10] = [7; 10];
    match is_txn_outgoing(&hook, &short) {
        Result::Okay(_) => panic!("accepted a short identifier"),
        Result::Fail(e) => assert_eq!(e, Error::TooSmall),
    }
}
