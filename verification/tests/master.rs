use dps::common::messages::{
    CanError, DpsSlaveMex, DpsSlaveMexModeM0, DpsSlaveMexModeM1, DpsSlaveMexModeM2,
    DpsSlaveMexModeM3,
};
use dps::common::types::DpsValue;
use dps::common::{CanMessage, DataGenericType};
use dps::master::node::{DpsMaster, MAX_VAR_FOR_SLAVE};
use dps::slave::node::{DpsSlave, SlaveAction};

const MASTER_ID: u16 = 65;
const SLAVES_ID: u16 = 78;

fn announce(board: u8, name: u64) -> [u8; 8] {
    let mut m = DpsSlaveMex::new(board, 0).unwrap();
    let mut m0 = DpsSlaveMexModeM0::new();
    m0.set_board_name(name).unwrap();
    m.set_m0(m0).unwrap();
    *m.raw()
}

fn var_name(board: u8, id: u8, name: u64) -> [u8; 8] {
    let mut m = DpsSlaveMex::new(board, 0).unwrap();
    let mut m1 = DpsSlaveMexModeM1::new();
    m1.set_info_var_id(id).unwrap();
    m1.set_var_name(name).unwrap();
    m.set_m1(m1).unwrap();
    *m.raw()
}

fn var_metadata(board: u8, id: u8, t: u8, size: u8) -> [u8; 8] {
    let mut m = DpsSlaveMex::new(board, 0).unwrap();
    let mut m2 = DpsSlaveMexModeM2::new();
    m2.set_value_var_id(id).unwrap();
    m2.set_value_var_type(t).unwrap();
    m2.set_value_var_size(size).unwrap();
    m.set_m2(m2).unwrap();
    *m.raw()
}

fn var_value(board: u8, id: u8, value: u32) -> [u8; 8] {
    let mut m = DpsSlaveMex::new(board, 0).unwrap();
    let mut m3 = DpsSlaveMexModeM3::new();
    m3.set_var_id(id).unwrap();
    m3.set_value(value).unwrap();
    m.set_m3(m3).unwrap();
    *m.raw()
}

fn recv<const SB: usize>(master: &mut DpsMaster<SB>, id: u16, payload: &[u8]) -> Result<bool, CanError> {
    master.check_mex_recv(&CanMessage { id, payload })
}

#[test]
fn init_master() {
    DpsMaster::<1>::new(MASTER_ID, SLAVES_ID);
}

#[test]
fn new_connection_frame() {
    let master = DpsMaster::<2>::new(MASTER_ID, SLAVES_ID);
    let f = master.new_connection().unwrap();
    assert_eq!(f.id, MASTER_ID);
    assert_eq!(f.payload, [0u8; 8]);
}

#[test]
fn announcement_adds_board() {
    let mut master = DpsMaster::<2>::new(MASTER_ID, SLAVES_ID);
    assert!(!master.has_board(2));
    assert_eq!(recv(&mut master, SLAVES_ID, &announce(2, 0x4241)), Ok(true));
    assert!(master.has_board(2));
    assert!(master.names_are_utf8());
    let boards = master.list_board();
    let expected = 0x4241u64.to_ne_bytes();
    let info = boards[0].unwrap();
    assert_eq!(info.id, 2);
    assert_eq!(info.name.as_bytes(), &expected[..7]);
    assert!(boards[1].is_none());
}

#[test]
fn second_announcement_is_ignored() {
    let mut master = DpsMaster::<2>::new(MASTER_ID, SLAVES_ID);
    assert_eq!(recv(&mut master, SLAVES_ID, &announce(2, 0x41)), Ok(true));
    assert_eq!(recv(&mut master, SLAVES_ID, &announce(2, 0x42)), Ok(false));
    let boards = master.list_board();
    assert_eq!(boards[0].unwrap().name.as_bytes(), &0x41u64.to_ne_bytes()[..7]);
    assert!(boards[1].is_none());
}

#[test]
fn boards_listed_in_discovery_order() {
    let mut master = DpsMaster::<3>::new(MASTER_ID, SLAVES_ID);
    assert_eq!(recv(&mut master, SLAVES_ID, &announce(7, 0x61)), Ok(true));
    assert_eq!(recv(&mut master, SLAVES_ID, &announce(1, 0x62)), Ok(true));
    let boards = master.list_board();
    assert_eq!(boards[0].unwrap().id, 7);
    assert_eq!(boards[1].unwrap().id, 1);
    assert!(boards[2].is_none());
}

#[test]
fn name_that_is_not_utf8() {
    let mut master = DpsMaster::<1>::new(MASTER_ID, SLAVES_ID);
    assert_eq!(recv(&mut master, SLAVES_ID, &announce(0, 0x12d687)), Ok(true));
    assert!(!master.names_are_utf8());
}

#[test]
fn frame_from_other_id_is_ignored() {
    let mut master = DpsMaster::<1>::new(MASTER_ID, SLAVES_ID);
    assert_eq!(recv(&mut master, 99, &announce(2, 0x41)), Ok(false));
    assert!(!master.has_board(2));
}

#[test]
fn bad_payload_and_mode() {
    let mut master = DpsMaster::<1>::new(MASTER_ID, SLAVES_ID);
    assert_eq!(recv(&mut master, SLAVES_ID, &[0u8; 7]), Err(CanError::InvalidPayloadSize));
    assert_eq!(recv(&mut master, 99, &[0u8; 3]), Err(CanError::InvalidPayloadSize));
    assert_eq!(
        recv(&mut master, SLAVES_ID, &[0x52, 0, 0, 0, 0, 0, 0, 0]),
        Err(CanError::InvalidMultiplexor { message_id: 650, multiplexor: 5 })
    );
    assert!(!master.has_board(2));
}

#[test]
fn variable_frames_create_default_records() {
    let mut master = DpsMaster::<2>::new(MASTER_ID, SLAVES_ID);
    assert_eq!(recv(&mut master, SLAVES_ID, &var_name(3, 0, 0x6162)), Ok(false));
    assert!(master.list_vars(3).is_none());
    assert_eq!(recv(&mut master, SLAVES_ID, &announce(3, 0x41)), Ok(true));
    assert!(master.list_vars(3).is_none());
    assert!(master.get_value_var(3, 4).is_none());

    assert_eq!(recv(&mut master, SLAVES_ID, &var_name(3, 4, 0x6162)), Ok(true));
    assert_eq!(recv(&mut master, SLAVES_ID, &var_metadata(3, 4, 1, 2)), Ok(true));
    assert_eq!(recv(&mut master, SLAVES_ID, &var_value(3, 4, 0x1234_5678)), Ok(true));
    assert_eq!(recv(&mut master, SLAVES_ID, &var_value(3, 9, 0x0102_0304)), Ok(true));

    // The records keep the contents they were created with.
    let v = master.get_value_var(3, 4).unwrap();
    assert_eq!(v.raw_data(), &[0u8, 0, 0, 0]);
    assert_eq!(v.data_type(), DataGenericType::Unsigned);
    assert!(master.get_value_var(3, 5).is_none());

    let vars = master.list_vars(3).unwrap();
    assert_eq!(vars.len(), MAX_VAR_FOR_SLAVE);
    let first = vars[0].unwrap();
    assert_eq!(first.value(), DpsValue::U8(0));
    assert_eq!(first.var_id(), 0);
    let second = vars[1].unwrap();
    assert_eq!(second.value(), DpsValue::U8(0));
    assert_eq!(second.var_id(), 1);
    for k in 2..MAX_VAR_FOR_SLAVE {
        assert!(vars[k].is_none());
    }
}

#[test]
fn request_info_frames() {
    let mut master = DpsMaster::<3>::new(MASTER_ID, SLAVES_ID);
    assert!(master.request_info().unwrap().is_empty());
    recv(&mut master, SLAVES_ID, &announce(6, 0x41)).unwrap();
    recv(&mut master, SLAVES_ID, &announce(2, 0x42)).unwrap();
    let frames = master.request_info().unwrap();
    assert_eq!(frames.len(), 2);
    assert_eq!(frames[0].id, MASTER_ID);
    assert_eq!(frames[0].payload, [0x61, 0, 0, 0, 0, 0, 0, 0]);
    assert_eq!(frames[1].payload, [0x21, 0, 0, 0, 0, 0, 0, 0]);
}

#[test]
fn refresh_and_update_frames() {
    let mut master = DpsMaster::<2>::new(MASTER_ID, SLAVES_ID);
    assert!(master.refresh_value_var(5, 1).unwrap().is_none());
    assert!(master.refresh_value_var_all(5).unwrap().is_empty());
    assert!(master.update_remote_var(5, 1, 7).unwrap().is_none());

    recv(&mut master, SLAVES_ID, &announce(5, 0x41)).unwrap();
    assert!(master.refresh_value_var(5, 1).unwrap().is_none());
    assert!(master.update_remote_var(5, 1, 7).unwrap().is_none());
    recv(&mut master, SLAVES_ID, &var_name(5, 1, 0)).unwrap();
    recv(&mut master, SLAVES_ID, &var_name(5, 3, 0)).unwrap();

    let f = master.refresh_value_var(5, 1).unwrap().unwrap();
    assert_eq!(f.id, MASTER_ID);
    assert_eq!(f.payload, [0x52, 0x01, 0, 0, 0, 0, 0, 0]);

    let all = master.refresh_value_var_all(5).unwrap();
    assert_eq!(all.len(), 2);
    assert_eq!(all[0].payload, [0x52, 0x01, 0, 0, 0, 0, 0, 0]);
    assert_eq!(all[1].payload, [0x52, 0x03, 0, 0, 0, 0, 0, 0]);

    let u = master.update_remote_var(5, 3, 0xdead_beef).unwrap().unwrap();
    assert_eq!(u.id, MASTER_ID);
    assert_eq!(u.payload, [0x53, 0x03, 0xef, 0xbe, 0xad, 0xde, 0, 0]);
}

#[test]
fn remote_update_result_by_count() {
    assert_eq!(DpsMaster::<1>::remote_update_result(0), Ok(()));
    assert_eq!(DpsMaster::<1>::remote_update_result(31), Ok(()));
    assert_eq!(DpsMaster::<1>::remote_update_result(32), Err(CanError::InvalidPayloadSize));
}

#[test]
fn discover_req() {
    let mut slaves = Vec::new();
    for (name, index) in [(b"slave_1", 0u8), (b"slave_2", 1), (b"slave_3", 2)].iter() {
        let b_name = std::str::from_utf8(&**name).unwrap();
        let mut slave = DpsSlave::new(b_name, *index, MASTER_ID, SLAVES_ID).expect("init slave error");
        slave.enable();
        slaves.push(slave);
    }

    let mut master = DpsMaster::<10>::new(MASTER_ID, SLAVES_ID);
    let request = master.new_connection();
    assert_eq!(request.is_ok(), true);
    let request = request.unwrap();

    // A slave whose name does not read as a number cannot answer.
    for slave in slaves.iter() {
        let msg = request.as_message();
        if !slave.can_handle(&msg) {
            continue;
        }
        if let Ok(SlaveAction::Send(frames)) = slave.check_can_mex_recv(&msg) {
            for f in frames.iter() {
                let _ = master.check_mex_recv(&f.frame.as_message());
            }
        }
    }

    assert!(master.names_are_utf8());
    let boards = master.list_board();
    for board in boards.iter().flatten() {
        match board.id {
            0 => assert_eq!(board.name, "slave_1\0"),
            1 => assert_eq!(board.name, "slave_2\0"),
            2 => assert_eq!(board.name, "slave_3\0"),
            _ => panic!("invalid board: name: {}, id: {}", board.name, board.id),
        }
    }
}
