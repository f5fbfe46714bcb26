use dps::common::messages::{
    DpsMasterMex, DpsMasterMexModeM1, DpsMasterMexModeM2, DpsMasterMexModeM3,
};
use dps::common::types::DpsType;
use dps::common::{CanMessage, DataGenericType};
use dps::slave::node::{DpsSlave, SlaveAction, SlaveFrame};

const MASTER_ID: u16 = 650;
const SLAVE_ID: u16 = 651;

fn discovery() -> [u8; 8] {
    *DpsMasterMex::new(0).unwrap().raw()
}

fn info_request(board: u8) -> [u8; 8] {
    let mut m = DpsMasterMex::new(0).unwrap();
    let mut m1 = DpsMasterMexModeM1::new();
    m1.set_var_name_board_id(board).unwrap();
    m.set_m1(m1).unwrap();
    *m.raw()
}

fn value_request(board: u8, var: u8) -> [u8; 8] {
    let mut m = DpsMasterMex::new(0).unwrap();
    let mut m2 = DpsMasterMexModeM2::new();
    m2.set_var_refresh_board_id(board).unwrap();
    m2.set_var_refresh_var_id(var).unwrap();
    m.set_m2(m2).unwrap();
    *m.raw()
}

fn value_update(board: u8, var: u8, value: u32) -> [u8; 8] {
    let mut m = DpsMasterMex::new(0).unwrap();
    let mut m3 = DpsMasterMexModeM3::new();
    m3.set_var_value_board_id(board).unwrap();
    m3.set_var_value_var_id(var).unwrap();
    m3.set_value(value).unwrap();
    m.set_m3(m3).unwrap();
    *m.raw()
}

fn frames(action: SlaveAction) -> Vec<SlaveFrame> {
    match action {
        SlaveAction::Send(v) => v,
        other => panic!("expected frames to send, got {:?}", other),
    }
}

fn numbered_slave() -> DpsSlave {
    let mut slave = DpsSlave::new("0016961", 3, MASTER_ID, SLAVE_ID).unwrap();
    slave.enable();
    slave.monitor_var("000001", DataGenericType::Unsigned, 2).unwrap();
    slave.monitor_var("000258", DataGenericType::Floated, 4).unwrap();
    slave
}

#[test]
fn init_slave() {
    let mut slave = DpsSlave::new("boa0", 0, 650, 651).expect("init slave failed");
    slave.enable();
}

#[test]
fn monitor_var() {
    let vu8: u8 = 0;
    let vu16: u16 = 0;
    let vu32: u32 = 0;

    let vi8: i8 = 0;
    let vi16: i16 = 0;
    let vi32: i32 = 0;

    let vf32: f32 = 0.0;

    let mut slave = DpsSlave::new("brd_0", 0, 650, 651).expect("init slave failed");

    slave.enable();

    slave
        .monitor_var("vu8", vu8.get_type_category(), vu8.get_type_size() as u8)
        .inspect_err(|e| println!("{}", e))
        .unwrap();
    slave
        .monitor_var("vu16", vu16.get_type_category(), vu16.get_type_size() as u8)
        .inspect_err(|e| println!("{}", e))
        .unwrap();
    slave
        .monitor_var("vu32", vu32.get_type_category(), vu32.get_type_size() as u8)
        .inspect_err(|e| println!("{}", e))
        .unwrap();

    slave
        .monitor_var("vi8", vi8.get_type_category(), vi8.get_type_size() as u8)
        .inspect_err(|e| println!("{}", e))
        .unwrap();
    slave
        .monitor_var("vi16", vi16.get_type_category(), vi16.get_type_size() as u8)
        .inspect_err(|e| println!("{}", e))
        .unwrap();
    slave
        .monitor_var("vi32", vi32.get_type_category(), vi32.get_type_size() as u8)
        .inspect_err(|e| println!("{}", e))
        .unwrap();

    slave
        .monitor_var("vf32", DataGenericType::Floated, std::mem::size_of_val(&vf32) as u8)
        .inspect_err(|e| println!("{}", e))
        .unwrap();
}

#[test]
fn slave_name_too_long() {
    assert_eq!(DpsSlave::new("board_01", 0, 1, 2).unwrap_err(), "var name string too long ");
    assert!(DpsSlave::new("board_0", 0, 1, 2).is_ok());
}

#[test]
fn monitor_var_refusals() {
    let mut slave = DpsSlave::new("b", 0, 1, 2).unwrap();
    assert_eq!(slave.monitor_var("v", DataGenericType::Unsigned, 1), Err("dps is disable"));
    slave.enable();
    assert_eq!(
        slave.monitor_var("var_001", DataGenericType::Unsigned, 1),
        Err("var name string too long ")
    );
    for _ in 0..16 {
        assert_eq!(slave.monitor_var("v", DataGenericType::Unsigned, 1), Ok(()));
    }
    assert_eq!(slave.monitor_var("v", DataGenericType::Unsigned, 1), Err("Current dps node full"));
    slave.disable();
    assert_eq!(slave.monitor_var("v", DataGenericType::Unsigned, 1), Err("dps is disable"));
}

#[test]
fn slave_refuses_before_decoding() {
    let mut slave = DpsSlave::new("0016961", 3, MASTER_ID, SLAVE_ID).unwrap();
    let d = discovery();
    assert_eq!(
        slave.check_can_mex_recv(&CanMessage { id: MASTER_ID, payload: &d }).unwrap_err(),
        "dps is disable"
    );
    slave.enable();
    assert_eq!(
        slave.check_can_mex_recv(&CanMessage { id: 7, payload: &d }).unwrap_err(),
        "not right master id"
    );
    assert_eq!(
        slave.check_can_mex_recv(&CanMessage { id: MASTER_ID, payload: &d[..3] }).unwrap_err(),
        "invalid master mex payload"
    );
    let bad_mode = [0x05u8, 0, 0, 0, 0, 0, 0, 0];
    assert_eq!(
        slave.check_can_mex_recv(&CanMessage { id: MASTER_ID, payload: &bad_mode }).unwrap_err(),
        "invalid master mex mode"
    );
}

#[test]
fn slave_answers_discovery() {
    let slave = numbered_slave();
    let d = discovery();
    let msg = CanMessage { id: MASTER_ID, payload: &d };
    assert!(slave.can_handle(&msg));
    let out = frames(slave.check_can_mex_recv(&msg).unwrap());
    assert_eq!(out.len(), 1);
    assert_eq!(out[0].frame.id, SLAVE_ID);
    assert_eq!(out[0].frame.payload, [0x03, 0, 0x41, 0x42, 0, 0, 0, 0]);
    assert_eq!(out[0].on_failure, "failed to send discover board response");
}

#[test]
fn slave_name_that_is_not_a_number() {
    let mut slave = DpsSlave::new("brd_0", 0, MASTER_ID, SLAVE_ID).unwrap();
    slave.enable();
    let d = discovery();
    assert!(!slave.can_handle(&CanMessage { id: MASTER_ID, payload: &d }));
    // Frames that need no name are still handled.
    let r = value_request(0, 0);
    assert!(slave.can_handle(&CanMessage { id: MASTER_ID, payload: &r }));
    slave.monitor_var("v", DataGenericType::Unsigned, 1).unwrap();
    let i = info_request(0);
    assert!(!slave.can_handle(&CanMessage { id: MASTER_ID, payload: &i }));
    let other = info_request(1);
    assert!(slave.can_handle(&CanMessage { id: MASTER_ID, payload: &other }));
}

#[test]
fn slave_answers_info_request() {
    let slave = numbered_slave();
    let req = info_request(3);
    let msg = CanMessage { id: MASTER_ID, payload: &req };
    assert!(slave.can_handle(&msg));
    let out = frames(slave.check_can_mex_recv(&msg).unwrap());
    assert_eq!(out.len(), 4);
    assert_eq!(out[0].frame.id, SLAVE_ID);
    assert_eq!(out[0].frame.payload, [0x13, 0x00, 0x01, 0, 0, 0, 0, 0]);
    assert_eq!(out[0].on_failure, "failed sending slave resp request info mex name");
    // Metadata: type code 0, size 2 in bits 14..16.
    assert_eq!(out[1].frame.payload, [0x23, 0x80, 0x01, 0, 0, 0, 0, 0]);
    assert_eq!(out[1].on_failure, "failed sending slave resp request info mex metadata");
    assert_eq!(out[2].frame.payload, [0x13, 0x01, 0x02, 0x01, 0, 0, 0, 0]);
    // Float: type code 1; the size 4 keeps its two low bits, 0.
    assert_eq!(out[3].frame.payload, [0x23, 0x11, 0x02, 0x01, 0, 0, 0, 0]);
}

#[test]
fn slave_ignores_other_boards() {
    let slave = numbered_slave();
    for p in [info_request(4), value_request(4, 0), value_update(4, 0, 1)].iter() {
        match slave.check_can_mex_recv(&CanMessage { id: MASTER_ID, payload: p }).unwrap() {
            SlaveAction::Idle => {}
            other => panic!("expected no action, got {:?}", other),
        }
    }
}

#[test]
fn slave_answers_value_request() {
    let slave = numbered_slave();
    let req = value_request(3, 1);
    let out = frames(slave.check_can_mex_recv(&CanMessage { id: MASTER_ID, payload: &req }).unwrap());
    assert_eq!(out.len(), 1);
    assert_eq!(out[0].frame.payload, [0x33, 0x01, 42, 0, 0, 0, 0, 0]);
    assert_eq!(out[0].on_failure, "failed send message for request var value");
    let req = value_request(3, 9);
    let out = frames(slave.check_can_mex_recv(&CanMessage { id: MASTER_ID, payload: &req }).unwrap());
    assert_eq!(out[0].frame.payload, [0x33, 0, 0, 0, 0, 0, 0, 0]);
}

#[test]
fn slave_value_update() {
    let slave = numbered_slave();
    let req = value_update(3, 1, 0xdead_beef);
    match slave.check_can_mex_recv(&CanMessage { id: MASTER_ID, payload: &req }).unwrap() {
        SlaveAction::UpdateVar { slot, data } => {
            assert_eq!(slot, 1);
            assert_eq!(data, [0xef, 0xbe, 0xad, 0xde]);
            let mut v: u32 = 0;
            v.update(&data).unwrap();
            assert_eq!(v, 0xdead_beef);
        }
        other => panic!("expected an update, got {:?}", other),
    }
    let req = value_update(3, 2, 1);
    assert_eq!(
        slave.check_can_mex_recv(&CanMessage { id: MASTER_ID, payload: &req }).unwrap_err(),
        "variable not found"
    );
}

#[test]
fn vec_slave_ids_follow_order() {
    let a = [1u8];
    let b = 2.5f32.to_le_bytes();
    let mut slave = dps::slave::DpsSlave::new(*b"board_1", 1, 2, 3);
    slave.enable();
    slave.monitor_primitive_var(dps::slave::DpsPrimitiveTypes::DpsTypesUint8T, &a, *b"var_00");
    slave.monitor_primitive_var(dps::slave::DpsPrimitiveTypes::DpsTypesFloatT, &b, *b"var_01");
    slave.disable();
}
