use dps::common::types::DpsType;
use dps::common::{CanFrame, DataGenericType};
use dps::master::node::DpsMaster;
use dps::slave::node::{DpsSlave, SlaveAction};

const MASTER_ID: u16 = 65;
const SLAVES_ID: u16 = 78;

fn slave_answer(slave: &DpsSlave, frame: &CanFrame) -> SlaveAction {
    let msg = frame.as_message();
    assert!(slave.can_handle(&msg));
    slave.check_can_mex_recv(&msg).unwrap()
}

#[test]
fn discovery_then_update_round_trip() {
    let mut slave = DpsSlave::new("0016961", 2, MASTER_ID, SLAVES_ID).unwrap();
    slave.enable();
    slave.monitor_var("000007", DataGenericType::Unsigned, 4).unwrap();
    let mut master = DpsMaster::<4>::new(MASTER_ID, SLAVES_ID);

    // Discovery: the slave's answer makes its board known to the master.
    let request = master.new_connection().unwrap();
    let reply = match slave_answer(&slave, &request) {
        SlaveAction::Send(v) => v,
        other => panic!("expected a reply, got {:?}", other),
    };
    assert_eq!(reply.len(), 1);
    assert_eq!(master.check_mex_recv(&reply[0].frame.as_message()), Ok(true));
    assert!(master.has_board(2));
    let boards = master.list_board();
    assert_eq!(boards[0].unwrap().id, 2);
    assert_eq!(boards[0].unwrap().name.as_bytes(), &16961u64.to_ne_bytes()[..7]);

    // Information: every answer frame is accepted and the variable appears.
    let requests = master.request_info().unwrap();
    assert_eq!(requests.len(), 1);
    let answers = match slave_answer(&slave, &requests[0]) {
        SlaveAction::Send(v) => v,
        other => panic!("expected answers, got {:?}", other),
    };
    assert_eq!(answers.len(), 2);
    for a in answers.iter() {
        assert_eq!(master.check_mex_recv(&a.frame.as_message()), Ok(true));
    }
    assert!(master.get_value_var(2, 0).is_some());

    // Update: the slave is asked to write the value into the variable.
    let update = master.update_remote_var(2, 0, 0x0bad_cafe).unwrap().unwrap();
    match slave_answer(&slave, &update) {
        SlaveAction::UpdateVar { slot, data } => {
            assert_eq!(slot, 0);
            let mut v: u32 = 0;
            v.update(&data).unwrap();
            assert_eq!(v, 0x0bad_cafe);
        }
        other => panic!("expected an update, got {:?}", other),
    }

    // Refresh: the slave answers the request with a value frame, which the
    // master accepts.
    let refresh = master.refresh_value_var(2, 0).unwrap().unwrap();
    assert_eq!(refresh.payload, [0x22, 0x00, 0, 0, 0, 0, 0, 0]);
    let values = match slave_answer(&slave, &refresh) {
        SlaveAction::Send(v) => v,
        other => panic!("expected a value, got {:?}", other),
    };
    assert_eq!(values.len(), 1);
    assert_eq!(values[0].frame.payload, [0x32, 0x00, 42, 0, 0, 0, 0, 0]);
    assert_eq!(master.check_mex_recv(&values[0].frame.as_message()), Ok(true));
}

#[test]
fn vec_master_stores_slave_values() {
    let mut slave = DpsSlave::new("0016961", 2, MASTER_ID, SLAVES_ID).unwrap();
    slave.enable();
    slave.monitor_var("000007", DataGenericType::Unsigned, 4).unwrap();
    let mut master = dps::master::DpsMaster::new(MASTER_ID, SLAVES_ID);

    let request = master.new_connection().unwrap();
    if let SlaveAction::Send(v) = slave_answer(&slave, &request) {
        assert_eq!(master.check_mex_recv(&v[0].frame.as_message()), Ok(true));
    } else {
        panic!("expected a reply");
    }
    let requests = master.request_info().unwrap();
    if let SlaveAction::Send(v) = slave_answer(&slave, &requests[0]) {
        for a in v.iter() {
            assert_eq!(master.check_mex_recv(&a.frame.as_message()), Ok(true));
        }
    } else {
        panic!("expected answers");
    }
    let vars = master.list_vars(2).unwrap();
    assert_eq!(vars.len(), 1);
    assert_eq!(vars[0].id(), 0);
    assert_eq!(vars[0].name(), [7, 0, 0, 0, 0, 0]);

    // The refresh request is answered with a value frame, whose bytes the
    // master stores.
    let request = master.refresh_value_var(2, 0).unwrap().unwrap();
    if let SlaveAction::Send(v) = slave_answer(&slave, &request) {
        assert_eq!(master.check_mex_recv(&v[0].frame.as_message()), Ok(true));
    } else {
        panic!("expected a value");
    }
    let value = master.get_value_var(2, 0).unwrap();
    assert_eq!(value.raw_data(), &[42u8, 0, 0, 0]);
}
