use dps::common::messages::{
    CanError, DpsMasterMex, DpsMasterMexMode, DpsMasterMexModeM0, DpsMasterMexModeM1,
    DpsMasterMexModeM2, DpsMasterMexModeM3, DpsSlaveMex, DpsSlaveMexMode, DpsSlaveMexModeM0,
    DpsSlaveMexModeM1, DpsSlaveMexModeM2, DpsSlaveMexModeM3, DpsSlaveMexValueVarSize,
    DpsSlaveMexValueVarType, Messages,
};

#[test]
fn slave_mex_new_packs_board_id_and_mode() {
    let m = DpsSlaveMex::new(5, 2).unwrap();
    assert_eq!(*m.raw(), [0x25, 0, 0, 0, 0, 0, 0, 0]);
    assert_eq!(m.board_id(), 5);
    assert_eq!(m.board_id_raw(), 5);
    assert_eq!(m.mode_raw(), 2);
}

#[test]
fn slave_mex_board_id_keeps_low_four_bits() {
    let mut m = DpsSlaveMex::new(0, 1).unwrap();
    m.set_board_id(0x1f).unwrap();
    assert_eq!(m.board_id(), 0x0f);
    assert_eq!(m.mode_raw(), 1);
    assert_eq!(*m.raw(), [0x1f, 0, 0, 0, 0, 0, 0, 0]);
}

#[test]
fn slave_mode_m0_board_name() {
    let mut m0 = DpsSlaveMexModeM0::new();
    m0.set_board_name(0x4241).unwrap();
    assert_eq!(m0.board_name(), 0x4241);
    assert_eq!(m0.board_name_raw(), 0x4241);
    m0.set_id(9).unwrap();
    assert_eq!(m0.id(), 9);
    assert_eq!(m0.id_raw(), 9);
    let mut m = DpsSlaveMex::new(3, 7).unwrap();
    m.set_m0(m0).unwrap();
    assert_eq!(*m.raw(), [0x03, 0x09, 0x41, 0x42, 0, 0, 0, 0]);
    match m.mode().unwrap() {
        DpsSlaveMexMode::M0(inner) => {
            assert_eq!(inner.board_name(), 0x4241);
            assert_eq!(inner.id(), 9);
        }
        _ => panic!("expected mode 0"),
    }
}

#[test]
fn slave_board_name_keeps_48_bits() {
    let mut m0 = DpsSlaveMexModeM0::new();
    m0.set_board_name(u64::MAX).unwrap();
    assert_eq!(m0.board_name(), 0xffff_ffff_ffff);
}

#[test]
fn slave_mode_m1_var_name() {
    let mut m1 = DpsSlaveMexModeM1::new();
    m1.set_info_var_id(4).unwrap();
    m1.set_var_name(123456).unwrap();
    assert_eq!(m1.info_var_id(), 4);
    assert_eq!(m1.info_var_id_raw(), 4);
    assert_eq!(m1.var_name(), 123456);
    assert_eq!(m1.var_name_raw(), 123456);
    let mut m = DpsSlaveMex::new(2, 0).unwrap();
    m.set_m1(m1).unwrap();
    assert_eq!(*m.raw(), [0x12, 0x04, 0x40, 0xe2, 0x01, 0, 0, 0]);
}

#[test]
fn slave_mode_m2_metadata() {
    let mut m2 = DpsSlaveMexModeM2::new();
    m2.set_value_var_id(7).unwrap();
    m2.set_value_var_type(1).unwrap();
    m2.set_value_var_size(2).unwrap();
    assert_eq!(m2.value_var_id(), 7);
    assert_eq!(m2.value_var_id_raw(), 7);
    assert_eq!(m2.value_var_type(), DpsSlaveMexValueVarType::Signed);
    assert_eq!(m2.value_var_type_raw(), 1);
    assert_eq!(m2.value_var_size(), DpsSlaveMexValueVarSize::X32Bit);
    assert_eq!(m2.value_var_size_raw(), 2);
    let mut m = DpsSlaveMex::new(5, 0).unwrap();
    m.set_m2(m2).unwrap();
    assert_eq!(*m.raw(), [0x25, 0x97, 0, 0, 0, 0, 0, 0]);
}

#[test]
fn slave_mode_m2_other_codes() {
    let mut m2 = DpsSlaveMexModeM2::new();
    m2.set_value_var_type(3).unwrap();
    m2.set_value_var_size(3).unwrap();
    assert_eq!(m2.value_var_type(), DpsSlaveMexValueVarType::_Other(3));
    assert_eq!(m2.value_var_size(), DpsSlaveMexValueVarSize::_Other(3));
    assert_eq!(u8::from(DpsSlaveMexValueVarType::Floated), 2);
    assert_eq!(u8::from(DpsSlaveMexValueVarType::_Other(3)), 3);
    assert_eq!(u8::from(DpsSlaveMexValueVarSize::X16Bit), 1);
    assert_eq!(u8::from(DpsSlaveMexValueVarSize::_Other(3)), 3);
}

#[test]
fn slave_mode_m3_value() {
    let mut m3 = DpsSlaveMexModeM3::new();
    m3.set_var_id(3).unwrap();
    m3.set_value(0xdead_beef).unwrap();
    assert_eq!(m3.var_id(), 3);
    assert_eq!(m3.var_id_raw(), 3);
    assert_eq!(m3.value(), 0xdead_beef);
    assert_eq!(m3.value_raw(), 0xdead_beef);
    let mut m = DpsSlaveMex::new(1, 0).unwrap();
    m.set_m3(m3).unwrap();
    assert_eq!(*m.raw(), [0x31, 0x03, 0xef, 0xbe, 0xad, 0xde, 0, 0]);
}

#[test]
fn slave_mex_from_payload() {
    let payload = [0x31u8, 0x03, 0xef, 0xbe, 0xad, 0xde, 0, 0];
    let mut m = DpsSlaveMex::try_from(&payload[..]).unwrap();
    assert_eq!(m.board_id(), 1);
    match m.mode().unwrap() {
        DpsSlaveMexMode::M3(inner) => {
            assert_eq!(inner.var_id(), 3);
            assert_eq!(inner.value(), 0xdead_beef);
        }
        _ => panic!("expected mode 3"),
    }
}

#[test]
fn slave_mex_wrong_payload_size() {
    let payload = [0u8; 7];
    assert_eq!(DpsSlaveMex::try_from(&payload[..]).unwrap_err(), CanError::InvalidPayloadSize);
    let payload = [0u8; 9];
    assert_eq!(DpsSlaveMex::try_from(&payload[..]).unwrap_err(), CanError::InvalidPayloadSize);
}

#[test]
fn slave_mex_unknown_mode() {
    let payload = [0x50u8, 0, 0, 0, 0, 0, 0, 0];
    let mut m = DpsSlaveMex::try_from(&payload[..]).unwrap();
    assert_eq!(
        m.mode().unwrap_err(),
        CanError::InvalidMultiplexor { message_id: 650, multiplexor: 5 }
    );
}

#[test]
fn master_mex_new_and_modes() {
    let m = DpsMasterMex::new(2).unwrap();
    assert_eq!(*m.raw(), [0x02, 0, 0, 0, 0, 0, 0, 0]);
    assert_eq!(m.mode_raw(), 2);

    let mut m0 = DpsMasterMexModeM0::new();
    m0.set_reserved(true).unwrap();
    assert!(m0.reserved());
    assert!(m0.reserved_raw());
    let mut m = DpsMasterMex::new(9).unwrap();
    m.set_m0(m0).unwrap();
    assert_eq!(*m.raw(), [0x10, 0, 0, 0, 0, 0, 0, 0]);
}

#[test]
fn master_mode_m1_board() {
    let mut m1 = DpsMasterMexModeM1::new();
    m1.set_var_name_board_id(6).unwrap();
    assert_eq!(m1.var_name_board_id(), 6);
    assert_eq!(m1.var_name_board_id_raw(), 6);
    let mut m = DpsMasterMex::new(0).unwrap();
    m.set_m1(m1).unwrap();
    assert_eq!(*m.raw(), [0x61, 0, 0, 0, 0, 0, 0, 0]);
}

#[test]
fn master_mode_m2_refresh() {
    let mut m2 = DpsMasterMexModeM2::new();
    m2.set_var_refresh_board_id(4).unwrap();
    m2.set_var_refresh_var_id(11).unwrap();
    assert_eq!(m2.var_refresh_board_id(), 4);
    assert_eq!(m2.var_refresh_board_id_raw(), 4);
    assert_eq!(m2.var_refresh_var_id(), 11);
    assert_eq!(m2.var_refresh_var_id_raw(), 11);
    let mut m = DpsMasterMex::new(0).unwrap();
    m.set_m2(m2).unwrap();
    assert_eq!(*m.raw(), [0x42, 0x0b, 0, 0, 0, 0, 0, 0]);
}

#[test]
fn master_mode_m3_value() {
    let mut m3 = DpsMasterMexModeM3::new();
    m3.set_var_value_board_id(2).unwrap();
    m3.set_var_value_var_id(5).unwrap();
    m3.set_value(0x0102_0304).unwrap();
    assert_eq!(m3.var_value_board_id(), 2);
    assert_eq!(m3.var_value_board_id_raw(), 2);
    assert_eq!(m3.var_value_var_id(), 5);
    assert_eq!(m3.var_value_var_id_raw(), 5);
    assert_eq!(m3.value(), 0x0102_0304);
    assert_eq!(m3.value_raw(), 0x0102_0304);
    let mut m = DpsMasterMex::new(0).unwrap();
    m.set_m3(m3).unwrap();
    assert_eq!(*m.raw(), [0x23, 0x05, 0x04, 0x03, 0x02, 0x01, 0, 0]);
    match m.mode().unwrap() {
        DpsMasterMexMode::M3(inner) => {
            assert_eq!(inner.var_value_board_id(), 2);
            assert_eq!(inner.value(), 0x0102_0304);
        }
        _ => panic!("expected mode 3"),
    }
}

#[test]
fn master_mex_unknown_mode() {
    let payload = [0x0fu8, 0, 0, 0, 0, 0, 0, 0];
    let mut m = DpsMasterMex::try_from(&payload[..]).unwrap();
    assert_eq!(
        m.mode().unwrap_err(),
        CanError::InvalidMultiplexor { message_id: 651, multiplexor: 15 }
    );
    assert_eq!(DpsMasterMex::try_from(&payload[..3]).unwrap_err(), CanError::InvalidPayloadSize);
}

#[test]
fn messages_from_can_message() {
    let payload = [0x12u8, 0, 0, 0, 0, 0, 0, 0];
    match Messages::from_can_message(650, &payload).unwrap() {
        Messages::DpsSlaveMex(m) => assert_eq!(m.board_id(), 2),
        _ => panic!("expected a slave message"),
    }
    match Messages::from_can_message(651, &payload).unwrap() {
        Messages::DpsMasterMex(m) => assert_eq!(m.mode_raw(), 2),
        _ => panic!("expected a master message"),
    }
    assert_eq!(
        Messages::from_can_message(652, &payload).unwrap_err(),
        CanError::UnknownMessageId(652)
    );
    assert_eq!(
        Messages::from_can_message(650, &payload[..2]).unwrap_err(),
        CanError::InvalidPayloadSize
    );
}

#[test]
fn message_ids() {
    assert_eq!(DpsSlaveMex::MESSAGE_ID, 650);
    assert_eq!(DpsMasterMex::MESSAGE_ID, 651);
}
