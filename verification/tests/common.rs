use dps::common::bitfield::{u32_le_bytes, u64_le_bytes};
use dps::common::types::{u16_from_le, u32_from_le, DpsType};
use dps::common::{
    delivery_failed, next_try_after_send, next_try_checked, CanFrame, DataGenericType,
    BOARD_NAME_LENGTH, MAX_SEND_TRIES, VAR_NAME_LENGTH,
};
use dps::slave::node::parse_decimal_u64;

/// Runs the send-first retry loop over a script of send outcomes
/// (`true` = the send failed) and returns the sends made and the final count.
fn run_send_loop(fails: &[bool]) -> (usize, u8) {
    let mut tries: u8 = 0;
    let mut sends = 0;
    loop {
        let failed = fails[sends];
        sends += 1;
        match next_try_after_send(tries, failed) {
            Some(t) => tries = t,
            None => break,
        }
    }
    (sends, tries)
}

/// Same for the loop that checks the count before each send.
fn run_checked_loop(fails: &[bool]) -> usize {
    let mut tries: u8 = 0;
    let mut sends = 0;
    loop {
        let failed = fails[sends];
        sends += 1;
        match next_try_checked(tries, failed) {
            Some(t) => tries = t,
            None => break,
        }
    }
    sends
}

#[test]
fn constants() {
    assert_eq!(BOARD_NAME_LENGTH, 7);
    assert_eq!(VAR_NAME_LENGTH, 6);
    assert_eq!(MAX_SEND_TRIES, 32);
}

#[test]
fn send_loop_stops_on_first_success() {
    assert_eq!(next_try_after_send(0, false), None);
    assert_eq!(next_try_after_send(0, true), Some(1));
    assert_eq!(next_try_after_send(31, true), Some(32));
    assert_eq!(next_try_after_send(32, true), None);
    let mut fails = vec![true; 3];
    fails.push(false);
    let (sends, tries) = run_send_loop(&fails);
    assert_eq!(sends, 4);
    assert_eq!(tries, 3);
    assert!(!delivery_failed(tries));
}

#[test]
fn send_loop_gives_up_after_33_sends() {
    let fails = vec![true; 40];
    let (sends, tries) = run_send_loop(&fails);
    assert_eq!(sends, 33);
    assert_eq!(tries, 32);
    assert!(delivery_failed(tries));
}

#[test]
fn send_loop_success_on_last_send_still_fails() {
    // 32 failures, then a success on the 33rd send: the count reached 32.
    let mut fails = vec![true; 32];
    fails.push(false);
    let (sends, tries) = run_send_loop(&fails);
    assert_eq!(sends, 33);
    assert!(delivery_failed(tries));
}

#[test]
fn checked_loop_bounds() {
    assert_eq!(next_try_checked(0, true), Some(1));
    assert_eq!(next_try_checked(30, true), Some(31));
    assert_eq!(next_try_checked(31, true), None);
    assert_eq!(next_try_checked(5, false), None);
    assert_eq!(run_checked_loop(&vec![true; 40]), 32);
    let mut fails = vec![true; 2];
    fails.push(false);
    assert_eq!(run_checked_loop(&fails), 3);
}

#[test]
fn frame_as_message() {
    let f = CanFrame { id: 65, payload: [1, 2, 3, 4, 5, 6, 7, 8] };
    let m = f.as_message();
    assert_eq!(m.id, 65);
    assert_eq!(m.payload, &[1, 2, 3, 4, 5, 6, 7, 8]);
}

#[test]
fn little_endian_helpers() {
    assert_eq!(u16_from_le(0x34, 0x12), 0x1234);
    assert_eq!(u32_from_le(0x78, 0x56, 0x34, 0x12), 0x1234_5678);
    assert_eq!(u64_le_bytes(0x0102_0304_0506_0708), [8, 7, 6, 5, 4, 3, 2, 1]);
    assert_eq!(u32_le_bytes(0xdead_beef), [0xef, 0xbe, 0xad, 0xde]);
}

#[test]
fn type_categories_and_sizes() {
    assert_eq!(0u8.get_type_category(), DataGenericType::Unsigned);
    assert_eq!(0u16.get_type_category(), DataGenericType::Unsigned);
    assert_eq!(0u32.get_type_category(), DataGenericType::Unsigned);
    assert_eq!(0i8.get_type_category(), DataGenericType::Signed);
    assert_eq!(0i16.get_type_category(), DataGenericType::Signed);
    assert_eq!(0i32.get_type_category(), DataGenericType::Signed);
    assert_eq!(0u8.get_type_size(), 1);
    assert_eq!(0u16.get_type_size(), 2);
    assert_eq!(0u32.get_type_size(), 4);
    assert_eq!(0i8.get_type_size(), 1);
    assert_eq!(0i16.get_type_size(), 2);
    assert_eq!(0i32.get_type_size(), 4);
}

#[test]
fn update_with_exact_bytes() {
    let mut a: u8 = 0;
    assert_eq!(a.update(&[200]), Ok(()));
    assert_eq!(a, 200);
    let mut b: u16 = 0;
    assert_eq!(b.update(&[0x34, 0x12]), Ok(()));
    assert_eq!(b, 0x1234);
    let mut c: u32 = 0;
    assert_eq!(c.update(&[0xef, 0xbe, 0xad, 0xde]), Ok(()));
    assert_eq!(c, 0xdead_beef);
    let mut d: i8 = 0;
    assert_eq!(d.update(&[0xff]), Ok(()));
    assert_eq!(d, -1);
    let mut e: i16 = 0;
    assert_eq!(e.update(&[0xfe, 0xff]), Ok(()));
    assert_eq!(e, -2);
    let mut f: i32 = 0;
    assert_eq!(f.update(&[0x00, 0x00, 0x00, 0x80]), Ok(()));
    assert_eq!(f, i32::MIN);
}

#[test]
fn update_with_wrong_length_keeps_value() {
    let mut a: u8 = 7;
    assert_eq!(a.update(&[1, 2, 3, 4]), Err("array too big"));
    assert_eq!(a, 7);
    let mut b: u16 = 9;
    assert_eq!(b.update(&[1]), Err("array too big"));
    assert_eq!(b, 9);
    let mut c: i32 = -5;
    assert_eq!(c.update(&[1, 2]), Err("array too big"));
    assert_eq!(c, -5);
}

#[test]
fn update_round_trip_32() {
    let x: u32 = 0x8765_4321;
    let mut u: u32 = 0;
    u.update(&u32_le_bytes(x)).unwrap();
    assert_eq!(u, x);
    let mut i: i32 = 0;
    i.update(&u32_le_bytes(x)).unwrap();
    assert_eq!(i, x as i32);
}

#[test]
fn parse_decimal_like_std() {
    let cases: [&str; 12] = [
        "0", "42", "+7", "18446744073709551615", "18446744073709551616", "", "+", "-1",
        "12a", "00042", " 1", "1234567",
    ];
    for c in cases.iter() {
        assert_eq!(parse_decimal_u64(c.as_bytes()), c.parse::<u64>().ok(), "case {:?}", c);
    }
    assert_eq!(parse_decimal_u64(b"1234567"), Some(1234567));
    assert_eq!(parse_decimal_u64(b"12\0\0\0\0"), None);
}
