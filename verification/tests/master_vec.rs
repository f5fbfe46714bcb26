use dps::common::messages::{
    CanError, DpsSlaveMex, DpsSlaveMexModeM0, DpsSlaveMexModeM1, DpsSlaveMexModeM2,
    DpsSlaveMexModeM3,
};
use dps::common::{CanMessage, DataGenericType};
use dps::master::DpsMaster;

const MASTER_ID: u16 = 65;
const SLAVES_ID: u16 = 78;

fn announce(board: u8, name: u64) -> [u8; 8] {
    let mut m = DpsSlaveMex::new(board, 0).unwrap();
    let mut m0 = DpsSlaveMexModeM0::new();
    m0.set_board_name(name).unwrap();
    m.set_m0(m0).unwrap();
    *m.raw()
}

fn var_name(board: u8, id: u8, name: u64) -> [u8; 8] {
    let mut m = DpsSlaveMex::new(board, 0).unwrap();
    let mut m1 = DpsSlaveMexModeM1::new();
    m1.set_info_var_id(id).unwrap();
    m1.set_var_name(name).unwrap();
    m.set_m1(m1).unwrap();
    *m.raw()
}

fn var_metadata(board: u8, id: u8, t: u8, size: u8) -> [u8; 8] {
    let mut m = DpsSlaveMex::new(board, 0).unwrap();
    let mut m2 = DpsSlaveMexModeM2::new();
    m2.set_value_var_id(id).unwrap();
    m2.set_value_var_type(t).unwrap();
    m2.set_value_var_size(size).unwrap();
    m.set_m2(m2).unwrap();
    *m.raw()
}

fn var_value(board: u8, id: u8, value: u32) -> [u8; 8] {
    let mut m = DpsSlaveMex::new(board, 0).unwrap();
    let mut m3 = DpsSlaveMexModeM3::new();
    m3.set_var_id(id).unwrap();
    m3.set_value(value).unwrap();
    m.set_m3(m3).unwrap();
    *m.raw()
}

fn recv(master: &mut DpsMaster, id: u16, payload: &[u8]) -> Result<bool, CanError> {
    master.check_mex_recv(&CanMessage { id, payload })
}

#[test]
fn vec_master_boards() {
    let mut master = DpsMaster::new(MASTER_ID, SLAVES_ID);
    assert!(master.list_board().is_empty());
    assert_eq!(recv(&mut master, SLAVES_ID, &announce(4, 0x4443)), Ok(true));
    assert_eq!(recv(&mut master, SLAVES_ID, &announce(4, 0x4445)), Ok(false));
    assert_eq!(recv(&mut master, SLAVES_ID, &announce(1, 0x46)), Ok(true));
    assert!(master.names_are_utf8());
    let boards = master.list_board();
    assert_eq!(boards.len(), 2);
    assert_eq!(boards[0].id, 4);
    assert_eq!(boards[0].name.as_bytes(), &0x4443u64.to_ne_bytes()[..7]);
    assert_eq!(boards[1].id, 1);
    let f = master.new_connection().unwrap();
    assert_eq!(f.id, MASTER_ID);
    assert_eq!(f.payload, [0u8; 8]);
    let frames = master.request_info().unwrap();
    assert_eq!(frames.len(), 2);
    assert_eq!(frames[0].payload, [0x41, 0, 0, 0, 0, 0, 0, 0]);
    assert_eq!(frames[1].payload, [0x11, 0, 0, 0, 0, 0, 0, 0]);
}

#[test]
fn vec_master_errors() {
    let mut master = DpsMaster::new(MASTER_ID, SLAVES_ID);
    assert_eq!(recv(&mut master, SLAVES_ID, &[1, 2]), Err(CanError::InvalidPayloadSize));
    assert_eq!(
        recv(&mut master, SLAVES_ID, &[0xf0, 0, 0, 0, 0, 0, 0, 0]),
        Err(CanError::InvalidMultiplexor { message_id: 650, multiplexor: 15 })
    );
    assert_eq!(recv(&mut master, 3, &announce(4, 0x41)), Ok(false));
    assert_eq!(recv(&mut master, SLAVES_ID, &var_name(4, 0, 0x41)), Ok(false));
    assert!(master.list_vars(4).is_none());
}

#[test]
fn vec_master_reads_back_what_frames_wrote() {
    let mut master = DpsMaster::new(MASTER_ID, SLAVES_ID);
    recv(&mut master, SLAVES_ID, &announce(2, 0x41)).unwrap();

    // A value for an unknown variable is dropped.
    assert_eq!(recv(&mut master, SLAVES_ID, &var_value(2, 5, 99)), Ok(true));
    assert!(master.get_value_var(2, 5).is_none());

    // The name frame adds the variable.
    assert_eq!(recv(&mut master, SLAVES_ID, &var_name(2, 5, 0x6867_6665_6463)), Ok(true));
    let v = master.get_value_var(2, 5).unwrap();
    assert_eq!(v.raw_data(), &[0u8, 0, 0, 0]);
    assert_eq!(v.data_type(), DataGenericType::Unsigned);

    // Metadata: raw type 2 is a float, raw size 2 is 4 bytes.
    assert_eq!(recv(&mut master, SLAVES_ID, &var_metadata(2, 5, 2, 2)), Ok(true));
    // Value frame: the four little-endian bytes are stored.
    assert_eq!(recv(&mut master, SLAVES_ID, &var_value(2, 5, 0x1234_5678)), Ok(true));
    let v = master.get_value_var(2, 5).unwrap();
    assert_eq!(v.raw_data(), &[0x78u8, 0x56, 0x34, 0x12]);
    assert_eq!(v.data_type(), DataGenericType::Floated);

    let vars = master.list_vars(2).unwrap();
    assert_eq!(vars.len(), 1);
    assert_eq!(vars[0].id(), 5);
    assert_eq!(vars[0].name(), [0x63, 0x64, 0x65, 0x66, 0x67, 0x68]);
    assert_eq!(vars[0].value(), [0x78, 0x56, 0x34, 0x12]);
    assert_eq!(vars[0].size(), 4);
    assert_eq!(vars[0].data_type(), DataGenericType::Floated);

    // Metadata for a new variable adds it with that type and size.
    assert_eq!(recv(&mut master, SLAVES_ID, &var_metadata(2, 7, 1, 1)), Ok(true));
    let vars = master.list_vars(2).unwrap();
    assert_eq!(vars.len(), 2);
    assert_eq!(vars[1].id(), 7);
    assert_eq!(vars[1].name(), [0u8; 6]);
    assert_eq!(vars[1].size(), 2);
    assert_eq!(vars[1].data_type(), DataGenericType::Signed);

    // Unknown codes fall back to unsigned, one byte.
    assert_eq!(recv(&mut master, SLAVES_ID, &var_metadata(2, 7, 3, 3)), Ok(true));
    let vars = master.list_vars(2).unwrap();
    assert_eq!(vars[1].size(), 1);
    assert_eq!(vars[1].data_type(), DataGenericType::Unsigned);
}

#[test]
fn vec_master_refresh_and_update() {
    let mut master = DpsMaster::new(MASTER_ID, SLAVES_ID);
    assert!(master.refresh_value_var(2, 5).unwrap().is_none());
    assert!(master.refresh_value_var_all(2).unwrap().is_empty());
    recv(&mut master, SLAVES_ID, &announce(2, 0x41)).unwrap();
    assert!(master.update_remote_var(2, 5, 1).unwrap().is_none());
    recv(&mut master, SLAVES_ID, &var_name(2, 5, 0)).unwrap();
    recv(&mut master, SLAVES_ID, &var_name(2, 1, 0)).unwrap();

    let f = master.refresh_value_var(2, 5).unwrap().unwrap();
    assert_eq!(f.id, MASTER_ID);
    assert_eq!(f.payload, [0x22, 0x05, 0, 0, 0, 0, 0, 0]);
    let all = master.refresh_value_var_all(2).unwrap();
    assert_eq!(all.len(), 2);
    assert_eq!(all[0].payload, [0x22, 0x05, 0, 0, 0, 0, 0, 0]);
    assert_eq!(all[1].payload, [0x22, 0x01, 0, 0, 0, 0, 0, 0]);

    let u = master.update_remote_var(2, 1, 0x0a0b_0c0d).unwrap().unwrap();
    assert_eq!(u.payload, [0x23, 0x01, 0x0d, 0x0c, 0x0b, 0x0a, 0, 0]);
    assert_eq!(DpsMaster::remote_update_result(32), Err(CanError::InvalidPayloadSize));
    assert_eq!(DpsMaster::remote_update_result(3), Ok(()));
}
