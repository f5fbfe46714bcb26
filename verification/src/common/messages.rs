//! Message definitions of the DPS protocol, version 1.0.
//!
//! Two CAN messages exist, each with an 8-byte payload: `DpsSlaveMex`
//! (id 650, sent by slaves) and `DpsMasterMex` (id 651, sent by the
//! master).  A 4-bit multiplexor (`Mode`) selects which set of signals the
//! rest of the payload carries; each set is a struct of its own
//! (`DpsSlaveMexModeM0` .. `DpsMasterMexModeM3`).  Every struct is viewed
//! as the little-endian word of its payload, and every signal contract is
//! stated over that word with `field_of` and `with_field`.
use crate::common::bitfield::{
    field_of, le_word, lemma_or_word, lemma_signal_bounds, lemma_zero_word, load_bits,
    or_payloads, store_bits, with_field,
};
use vstd::prelude::*;

verus! {

/// All messages
#[derive(Clone, Debug)]
pub enum Messages {
    /// DpsSlaveMex
    DpsSlaveMex(DpsSlaveMex),
    /// DpsMasterMex
    DpsMasterMex(DpsMasterMex),
}

impl Messages {
    /// Read message from CAN frame
    pub fn from_can_message(id: u32, payload: &[u8]) -> (r: Result<Self, CanError>)
        ensures
            id == 650 && payload@.len() == 8 ==> (r matches Ok(Messages::DpsSlaveMex(m)) && m@
                == le_word(payload@)),
            id == 651 && payload@.len() == 8 ==> (r matches Ok(Messages::DpsMasterMex(m)) && m@
                == le_word(payload@)),
            (id == 650 || id == 651) && payload@.len() != 8 ==> r == Err::<Self, CanError>(
                CanError::InvalidPayloadSize,
            ),
            id != 650 && id != 651 ==> r == Err::<Self, CanError>(CanError::UnknownMessageId(id)),
    {
        let res = match id {
            650 => Messages::DpsSlaveMex(DpsSlaveMex::try_from(payload)?),
            651 => Messages::DpsMasterMex(DpsMasterMex::try_from(payload)?),
            n => return Err(CanError::UnknownMessageId(n)),
        };
        Ok(res)
    }
}

/// Copies an 8-byte payload into an array.
fn payload_array(payload: &[u8]) -> (r: [u8; 8])
    requires
        payload@.len() == 8,
    ensures
        r@ == payload@,
{
    let r: [u8; 8] = [
        payload[0],
        payload[1],
        payload[2],
        payload[3],
        payload[4],
        payload[5],
        payload[6],
        payload[7],
    ];
    assert(r@ =~= payload@);
    r
}

/// DpsSlaveMex
///
/// - ID: 650 (0x28a)
/// - Size: 8 bytes
/// - Transmitter: SLAVE
#[derive(Clone, Copy, Debug)]
pub struct DpsSlaveMex {
    raw: [u8; 8],
}

impl View for DpsSlaveMex {
    type V = u64;

    closed spec fn view(&self) -> u64 {
        le_word(self.raw@)
    }
}

impl DpsSlaveMex {
    pub const MESSAGE_ID: u32 = 650;

    pub const BOARD_ID_MIN: u8 = 0u8;
    pub const BOARD_ID_MAX: u8 = 15u8;
    pub const MODE_MIN: u8 = 0u8;
    pub const MODE_MAX: u8 = 15u8;
    pub const ID_MIN: u8 = 0u8;
    pub const ID_MAX: u8 = 15u8;
    pub const BOARD_NAME_MIN: u64 = 0u64;
    pub const BOARD_NAME_MAX: u64 = 0u64;
    pub const INFO_VAR_ID_MIN: u8 = 0u8;
    pub const INFO_VAR_ID_MAX: u8 = 15u8;
    pub const VAR_NAME_MIN: u64 = 0u64;
    pub const VAR_NAME_MAX: u64 = 0u64;
    pub const VALUE_VAR_ID_MIN: u8 = 0u8;
    pub const VALUE_VAR_ID_MAX: u8 = 15u8;
    pub const VALUE_VAR_TYPE_MIN: u8 = 0u8;
    pub const VALUE_VAR_TYPE_MAX: u8 = 2u8;
    pub const VALUE_VAR_SIZE_MIN: u8 = 0u8;
    pub const VALUE_VAR_SIZE_MAX: u8 = 2u8;
    pub const VAR_ID_MIN: u8 = 0u8;
    pub const VAR_ID_MAX: u8 = 15u8;
    pub const VALUE_MIN: u32 = 0u32;
    pub const VALUE_MAX: u32 = 2u32;

    /// The word of a fresh message with the given board id and mode.
    pub open spec fn spec_new(board_id: u8, mode: u8) -> u64 {
        with_field(with_field(0, 0, 4, board_id as u64), 4, 4, mode as u64)
    }

    /// Construct new DpsSlaveMex from values
    pub fn new(board_id: u8, mode: u8) -> (r: Result<Self, CanError>)
        ensures
            r matches Ok(m) && m@ == Self::spec_new(board_id, mode),
    {
        let mut res = Self { raw: [0u8; 8] };
        proof {
            lemma_zero_word(res.raw@);
        }
        res.set_board_id(board_id)?;
        res.set_mode(mode)?;
        Ok(res)
    }

    /// Access message payload raw value
    pub fn raw(&self) -> (r: &[u8; 8])
        ensures
            le_word(r@) == self@,
    {
        &self.raw
    }

    /// The `board_id` signal as the payload word holds it.
    pub open spec fn spec_board_id(&self) -> u8 {
        field_of(self@, 0, 4) as u8
    }

    /// board_id
    ///
    /// - Min: 0
    /// - Max: 15
    /// - Unit: "slave board id"
    /// - Receivers: VECTOR_XXX
    pub fn board_id(&self) -> (r: u8)
        ensures
            r == self.spec_board_id(),
    {
        self.board_id_raw()
    }

    /// Get raw value of board_id
    ///
    /// - Start bit: 0
    /// - Signal size: 4 bits
    /// - Factor: 1
    /// - Offset: 0
    /// - Byte order: LittleEndian
    /// - Value type: Unsigned
    pub fn board_id_raw(&self) -> (r: u8)
        ensures
            r == self.spec_board_id(),
    {
        load_bits(&self.raw, 0, 4) as u8
    }

    /// Set value of board_id
    ///
    /// The low 4 bits of `value` are stored; range checking against the
    /// limits above is not done.
    pub fn set_board_id(&mut self, value: u8) -> (r: Result<(), CanError>)
        ensures
            r is Ok,
            final(self)@ == with_field(old(self)@, 0, 4, value as u64),
    {
        store_bits(&mut self.raw, 0, 4, value as u64);
        Ok(())
    }

    /// The multiplexor as the payload word holds it.
    pub open spec fn spec_mode(&self) -> u8 {
        field_of(self@, 4, 4) as u8
    }

    /// Get raw value of Mode
    ///
    /// - Start bit: 4
    /// - Signal size: 4 bits
    /// - Factor: 1
    /// - Offset: 0
    /// - Byte order: LittleEndian
    /// - Value type: Unsigned
    pub fn mode_raw(&self) -> (r: u8)
        ensures
            r == self.spec_mode(),
    {
        load_bits(&self.raw, 4, 8) as u8
    }

    /// The payload seen through the signals that its multiplexor selects;
    /// a multiplexor above 3 is refused.
    pub fn mode(&mut self) -> (r: Result<DpsSlaveMexMode, CanError>)
        ensures
            *final(self) == *old(self),
            old(self).spec_mode() <= 3 ==> (r matches Ok(md) && md.index() == old(self).spec_mode()
                && md.word() == old(self)@),
            old(self).spec_mode() > 3 ==> r == Err::<DpsSlaveMexMode, CanError>(
                CanError::InvalidMultiplexor {
                    message_id: 650,
                    multiplexor: old(self).spec_mode() as u16,
                },
            ),
    {
        match self.mode_raw() {
            0 => Ok(DpsSlaveMexMode::M0(DpsSlaveMexModeM0 { raw: self.raw })),
            1 => Ok(DpsSlaveMexMode::M1(DpsSlaveMexModeM1 { raw: self.raw })),
            2 => Ok(DpsSlaveMexMode::M2(DpsSlaveMexModeM2 { raw: self.raw })),
            3 => Ok(DpsSlaveMexMode::M3(DpsSlaveMexModeM3 { raw: self.raw })),
            multiplexor => Err(
                CanError::InvalidMultiplexor { message_id: 650, multiplexor: multiplexor as u16 },
            ),
        }
    }

    /// Set value of Mode
    fn set_mode(&mut self, value: u8) -> (r: Result<(), CanError>)
        ensures
            r is Ok,
            final(self)@ == with_field(old(self)@, 4, 4, value as u64),
    {
        store_bits(&mut self.raw, 4, 8, value as u64);
        Ok(())
    }

    /// Set value of Mode: merges the signals of `value` into this payload
    /// (bitwise or) and sets the multiplexor to 0.
    pub fn set_m0(&mut self, value: DpsSlaveMexModeM0) -> (r: Result<(), CanError>)
        ensures
            r is Ok,
            final(self)@ == with_field(old(self)@ | value@, 4, 4, 0),
    {
        let merged: [u8; 8] = or_payloads(self.raw, value.raw);
        proof {
            lemma_or_word(self.raw@, value.raw@, merged@);
        }
        self.raw = merged;
        self.set_mode(0)?;
        Ok(())
    }

    /// Set value of Mode: merges the signals of `value` into this payload
    /// (bitwise or) and sets the multiplexor to 1.
    pub fn set_m1(&mut self, value: DpsSlaveMexModeM1) -> (r: Result<(), CanError>)
        ensures
            r is Ok,
            final(self)@ == with_field(old(self)@ | value@, 4, 4, 1),
    {
        let merged: [u8; 8] = or_payloads(self.raw, value.raw);
        proof {
            lemma_or_word(self.raw@, value.raw@, merged@);
        }
        self.raw = merged;
        self.set_mode(1)?;
        Ok(())
    }

    /// Set value of Mode: merges the signals of `value` into this payload
    /// (bitwise or) and sets the multiplexor to 2.
    pub fn set_m2(&mut self, value: DpsSlaveMexModeM2) -> (r: Result<(), CanError>)
        ensures
            r is Ok,
            final(self)@ == with_field(old(self)@ | value@, 4, 4, 2),
    {
        let merged: [u8; 8] = or_payloads(self.raw, value.raw);
        proof {
            lemma_or_word(self.raw@, value.raw@, merged@);
        }
        self.raw = merged;
        self.set_mode(2)?;
        Ok(())
    }

    /// Set value of Mode: merges the signals of `value` into this payload
    /// (bitwise or) and sets the multiplexor to 3.
    pub fn set_m3(&mut self, value: DpsSlaveMexModeM3) -> (r: Result<(), CanError>)
        ensures
            r is Ok,
            final(self)@ == with_field(old(self)@ | value@, 4, 4, 3),
    {
        let merged: [u8; 8] = or_payloads(self.raw, value.raw);
        proof {
            lemma_or_word(self.raw@, value.raw@, merged@);
        }
        self.raw = merged;
        self.set_mode(3)?;
        Ok(())
    }
}

impl<'a> core::convert::TryFrom<&'a [u8]> for DpsSlaveMex {
    type Error = CanError;

    fn try_from(payload: &'a [u8]) -> (r: Result<Self, CanError>)
        ensures
            payload@.len() == 8 ==> (r matches Ok(m) && m@ == le_word(payload@)),
            payload@.len() != 8 ==> r == Err::<Self, CanError>(CanError::InvalidPayloadSize),
    {
        if payload.len() != 8 {
            return Err(CanError::InvalidPayloadSize);
        }
        let raw: [u8; 8] = payload_array(payload);
        proof {
            let chosen = choose|a: [u8; 8]| a@ == payload@;
            assert(raw@ == payload@);
            assert(chosen@ == payload@);
            assert(chosen =~= raw);
        }
        Ok(Self { raw })
    }
}

impl<'a> vstd::std_specs::convert::TryFromSpecImpl<&'a [u8]> for DpsSlaveMex {
    open spec fn obeys_try_from_spec() -> bool {
        true
    }

    closed spec fn try_from_spec(payload: &'a [u8]) -> Result<Self, CanError> {
        if payload@.len() == 8 {
            Ok(DpsSlaveMex { raw: choose|a: [u8; 8]| a@ == payload@ })
        } else {
            Err(CanError::InvalidPayloadSize)
        }
    }
}

/// Defined values for value_var_type
#[derive(Clone, Copy, PartialEq, Eq, Structural, Debug)]
pub enum DpsSlaveMexValueVarType {
    Unsigned,
    Signed,
    Floated,
    _Other(u8),
}

impl DpsSlaveMexValueVarType {
    /// The variant that a raw signal value stands for.
    pub open spec fn from_raw(raw: u8) -> Self {
        if raw == 0 {
            DpsSlaveMexValueVarType::Unsigned
        } else if raw == 1 {
            DpsSlaveMexValueVarType::Signed
        } else if raw == 2 {
            DpsSlaveMexValueVarType::Floated
        } else {
            DpsSlaveMexValueVarType::_Other(raw)
        }
    }

    /// The raw signal value of a variant.
    pub open spec fn to_raw(self) -> u8 {
        match self {
            DpsSlaveMexValueVarType::Unsigned => 0,
            DpsSlaveMexValueVarType::Signed => 1,
            DpsSlaveMexValueVarType::Floated => 2,
            DpsSlaveMexValueVarType::_Other(x) => x,
        }
    }
}

impl From<DpsSlaveMexValueVarType> for u8 {
    fn from(val: DpsSlaveMexValueVarType) -> (r: u8) {
        match val {
            DpsSlaveMexValueVarType::Unsigned => 0,
            DpsSlaveMexValueVarType::Signed => 1,
            DpsSlaveMexValueVarType::Floated => 2,
            DpsSlaveMexValueVarType::_Other(x) => x,
        }
    }
}

impl vstd::std_specs::convert::FromSpecImpl<DpsSlaveMexValueVarType> for u8 {
    open spec fn obeys_from_spec() -> bool {
        true
    }

    open spec fn from_spec(val: DpsSlaveMexValueVarType) -> u8 {
        val.to_raw()
    }
}

/// Defined values for value_var_size
#[derive(Clone, Copy, PartialEq, Eq, Structural, Debug)]
pub enum DpsSlaveMexValueVarSize {
    X8Bit,
    X16Bit,
    X32Bit,
    _Other(u8),
}

impl DpsSlaveMexValueVarSize {
    /// The variant that a raw signal value stands for.
    pub open spec fn from_raw(raw: u8) -> Self {
        if raw == 0 {
            DpsSlaveMexValueVarSize::X8Bit
        } else if raw == 1 {
            DpsSlaveMexValueVarSize::X16Bit
        } else if raw == 2 {
            DpsSlaveMexValueVarSize::X32Bit
        } else {
            DpsSlaveMexValueVarSize::_Other(raw)
        }
    }

    /// The raw signal value of a variant.
    pub open spec fn to_raw(self) -> u8 {
        match self {
            DpsSlaveMexValueVarSize::X8Bit => 0,
            DpsSlaveMexValueVarSize::X16Bit => 1,
            DpsSlaveMexValueVarSize::X32Bit => 2,
            DpsSlaveMexValueVarSize::_Other(x) => x,
        }
    }
}

impl From<DpsSlaveMexValueVarSize> for u8 {
    fn from(val: DpsSlaveMexValueVarSize) -> (r: u8) {
        match val {
            DpsSlaveMexValueVarSize::X8Bit => 0,
            DpsSlaveMexValueVarSize::X16Bit => 1,
            DpsSlaveMexValueVarSize::X32Bit => 2,
            DpsSlaveMexValueVarSize::_Other(x) => x,
        }
    }
}

impl vstd::std_specs::convert::FromSpecImpl<DpsSlaveMexValueVarSize> for u8 {
    open spec fn obeys_from_spec() -> bool {
        true
    }

    open spec fn from_spec(val: DpsSlaveMexValueVarSize) -> u8 {
        val.to_raw()
    }
}

/// Defined values for multiplexed signal DpsSlaveMex
#[derive(Debug)]
pub enum DpsSlaveMexMode {
    M0(DpsSlaveMexModeM0),
    M1(DpsSlaveMexModeM1),
    M2(DpsSlaveMexModeM2),
    M3(DpsSlaveMexModeM3),
}

impl DpsSlaveMexMode {
    /// The multiplexor value of the variant.
    pub open spec fn index(&self) -> u8 {
        match self {
            DpsSlaveMexMode::M0(_) => 0,
            DpsSlaveMexMode::M1(_) => 1,
            DpsSlaveMexMode::M2(_) => 2,
            DpsSlaveMexMode::M3(_) => 3,
        }
    }

    /// The payload word that the variant carries.
    pub open spec fn word(&self) -> u64 {
        match self {
            DpsSlaveMexMode::M0(m) => m@,
            DpsSlaveMexMode::M1(m) => m@,
            DpsSlaveMexMode::M2(m) => m@,
            DpsSlaveMexMode::M3(m) => m@,
        }
    }
}
/// One multiplexed layout of `DpsSlaveMex`: the payload seen through the
/// signals of this mode.
#[derive(Default, Debug)]
pub struct DpsSlaveMexModeM0 {
    raw: [u8; 8],
}

impl View for DpsSlaveMexModeM0 {
    type V = u64;

    closed spec fn view(&self) -> u64 {
        le_word(self.raw@)
    }
}

impl DpsSlaveMexModeM0 {
    /// A payload with every bit clear.
    pub fn new() -> (r: Self)
        ensures
            r@ == 0,
    {
        let r = Self { raw: [0u8; 8] };
        proof {
            lemma_zero_word(r.raw@);
        }
        r
    }
    /// The `id` signal as the payload word holds it.
    pub open spec fn spec_id(&self) -> u8 {
        field_of(self@, 8, 4) as u8
    }

    /// id
    ///
    /// - Min: 0
    /// - Max: 15
    /// - Unit: "slave board id"
    /// - Receivers: VECTOR_XXX
    pub fn id(&self) -> (r: u8)
        ensures
            r == self.spec_id(),
    {
        self.id_raw()
    }

    /// Get raw value of id
    ///
    /// - Start bit: 8
    /// - Signal size: 4 bits
    /// - Factor: 1
    /// - Offset: 0
    /// - Byte order: LittleEndian
    /// - Value type: Unsigned
    pub fn id_raw(&self) -> (r: u8)
        ensures
            r == self.spec_id(),
    {
        load_bits(&self.raw, 8, 12) as u8
    }

    /// Set value of id
    ///
    /// The low 4 bits of `value` are stored; range checking against the
    /// limits above is not done.
    pub fn set_id(&mut self, value: u8) -> (r: Result<(), CanError>)
        ensures
            r is Ok,
            final(self)@ == with_field(old(self)@, 8, 4, value as u64),
    {
        store_bits(&mut self.raw, 8, 12, value as u64);
        Ok(())
    }
    /// The `board_name` signal as the payload word holds it.
    pub open spec fn spec_board_name(&self) -> u64 {
        field_of(self@, 16, 48)
    }

    /// board_name
    ///
    /// - Min: 0
    /// - Max: 0
    /// - Unit: "slave board name"
    /// - Receivers: VECTOR_XXX
    pub fn board_name(&self) -> (r: u64)
        ensures
            r == self.spec_board_name(),
    {
        self.board_name_raw()
    }

    /// Get raw value of board_name
    ///
    /// - Start bit: 16
    /// - Signal size: 48 bits
    /// - Factor: 1
    /// - Offset: 0
    /// - Byte order: LittleEndian
    /// - Value type: Unsigned
    pub fn board_name_raw(&self) -> (r: u64)
        ensures
            r == self.spec_board_name(),
    {
        load_bits(&self.raw, 16, 64)
    }

    /// Set value of board_name
    ///
    /// The low 48 bits of `value` are stored; range checking against the
    /// limits above is not done.
    pub fn set_board_name(&mut self, value: u64) -> (r: Result<(), CanError>)
        ensures
            r is Ok,
            final(self)@ == with_field(old(self)@, 16, 48, value as u64),
    {
        store_bits(&mut self.raw, 16, 64, value);
        Ok(())
    }
}
/// One multiplexed layout of `DpsSlaveMex`: the payload seen through the
/// signals of this mode.
#[derive(Default, Debug)]
pub struct DpsSlaveMexModeM1 {
    raw: [u8; 8],
}

impl View for DpsSlaveMexModeM1 {
    type V = u64;

    closed spec fn view(&self) -> u64 {
        le_word(self.raw@)
    }
}

impl DpsSlaveMexModeM1 {
    /// A payload with every bit clear.
    pub fn new() -> (r: Self)
        ensures
            r@ == 0,
    {
        let r = Self { raw: [0u8; 8] };
        proof {
            lemma_zero_word(r.raw@);
        }
        r
    }
    /// The `info_var_id` signal as the payload word holds it.
    pub open spec fn spec_info_var_id(&self) -> u8 {
        field_of(self@, 8, 4) as u8
    }

    /// info_var_id
    ///
    /// - Min: 0
    /// - Max: 15
    /// - Unit: "slave var id"
    /// - Receivers: VECTOR_XXX
    pub fn info_var_id(&self) -> (r: u8)
        ensures
            r == self.spec_info_var_id(),
    {
        self.info_var_id_raw()
    }

    /// Get raw value of info_var_id
    ///
    /// - Start bit: 8
    /// - Signal size: 4 bits
    /// - Factor: 1
    /// - Offset: 0
    /// - Byte order: LittleEndian
    /// - Value type: Unsigned
    pub fn info_var_id_raw(&self) -> (r: u8)
        ensures
            r == self.spec_info_var_id(),
    {
        load_bits(&self.raw, 8, 12) as u8
    }

    /// Set value of info_var_id
    ///
    /// The low 4 bits of `value` are stored; range checking against the
    /// limits above is not done.
    pub fn set_info_var_id(&mut self, value: u8) -> (r: Result<(), CanError>)
        ensures
            r is Ok,
            final(self)@ == with_field(old(self)@, 8, 4, value as u64),
    {
        store_bits(&mut self.raw, 8, 12, value as u64);
        Ok(())
    }
    /// The `var_name` signal as the payload word holds it.
    pub open spec fn spec_var_name(&self) -> u64 {
        field_of(self@, 16, 48)
    }

    /// var_name
    ///
    /// - Min: 0
    /// - Max: 0
    /// - Unit: "slave var name"
    /// - Receivers: VECTOR_XXX
    pub fn var_name(&self) -> (r: u64)
        ensures
            r == self.spec_var_name(),
    {
        self.var_name_raw()
    }

    /// Get raw value of var_name
    ///
    /// - Start bit: 16
    /// - Signal size: 48 bits
    /// - Factor: 1
    /// - Offset: 0
    /// - Byte order: LittleEndian
    /// - Value type: Unsigned
    pub fn var_name_raw(&self) -> (r: u64)
        ensures
            r == self.spec_var_name(),
    {
        load_bits(&self.raw, 16, 64)
    }

    /// Set value of var_name
    ///
    /// The low 48 bits of `value` are stored; range checking against the
    /// limits above is not done.
    pub fn set_var_name(&mut self, value: u64) -> (r: Result<(), CanError>)
        ensures
            r is Ok,
            final(self)@ == with_field(old(self)@, 16, 48, value as u64),
    {
        store_bits(&mut self.raw, 16, 64, value);
        Ok(())
    }
}
/// One multiplexed layout of `DpsSlaveMex`: the payload seen through the
/// signals of this mode.
#[derive(Default, Debug)]
pub struct DpsSlaveMexModeM2 {
    raw: [u8; 8],
}

impl View for DpsSlaveMexModeM2 {
    type V = u64;

    closed spec fn view(&self) -> u64 {
        le_word(self.raw@)
    }
}

impl DpsSlaveMexModeM2 {
    /// A payload with every bit clear.
    pub fn new() -> (r: Self)
        ensures
            r@ == 0,
    {
        let r = Self { raw: [0u8; 8] };
        proof {
            lemma_zero_word(r.raw@);
        }
        r
    }
    /// The `value_var_id` signal as the payload word holds it.
    pub open spec fn spec_value_var_id(&self) -> u8 {
        field_of(self@, 8, 4) as u8
    }

    /// value_var_id
    ///
    /// - Min: 0
    /// - Max: 15
    /// - Unit: "slave var id"
    /// - Receivers: VECTOR_XXX
    pub fn value_var_id(&self) -> (r: u8)
        ensures
            r == self.spec_value_var_id(),
    {
        self.value_var_id_raw()
    }

    /// Get raw value of value_var_id
    ///
    /// - Start bit: 8
    /// - Signal size: 4 bits
    /// - Factor: 1
    /// - Offset: 0
    /// - Byte order: LittleEndian
    /// - Value type: Unsigned
    pub fn value_var_id_raw(&self) -> (r: u8)
        ensures
            r == self.spec_value_var_id(),
    {
        load_bits(&self.raw, 8, 12) as u8
    }

    /// Set value of value_var_id
    ///
    /// The low 4 bits of `value` are stored; range checking against the
    /// limits above is not done.
    pub fn set_value_var_id(&mut self, value: u8) -> (r: Result<(), CanError>)
        ensures
            r is Ok,
            final(self)@ == with_field(old(self)@, 8, 4, value as u64),
    {
        store_bits(&mut self.raw, 8, 12, value as u64);
        Ok(())
    }
    /// The `value_var_type` signal as the payload word holds it.
    pub open spec fn spec_value_var_type(&self) -> u8 {
        field_of(self@, 12, 2) as u8
    }

    /// value_var_type
    ///
    /// - Min: 0
    /// - Max: 2
    /// - Unit: "slave var type"
    /// - Receivers: VECTOR_XXX
    pub fn value_var_type(&self) -> (r: DpsSlaveMexValueVarType)
        ensures
            r == DpsSlaveMexValueVarType::from_raw(self.spec_value_var_type()),
    {
        let signal: u8 = load_bits(&self.raw, 12, 14) as u8;
        match signal {
            0 => DpsSlaveMexValueVarType::Unsigned,
            1 => DpsSlaveMexValueVarType::Signed,
            2 => DpsSlaveMexValueVarType::Floated,
            _ => DpsSlaveMexValueVarType::_Other(self.value_var_type_raw()),
        }
    }

    /// Get raw value of value_var_type
    ///
    /// - Start bit: 12
    /// - Signal size: 2 bits
    /// - Factor: 1
    /// - Offset: 0
    /// - Byte order: LittleEndian
    /// - Value type: Unsigned
    pub fn value_var_type_raw(&self) -> (r: u8)
        ensures
            r == self.spec_value_var_type(),
    {
        load_bits(&self.raw, 12, 14) as u8
    }

    /// Set value of value_var_type
    ///
    /// The low 2 bits of `value` are stored; range checking against the
    /// limits above is not done.
    pub fn set_value_var_type(&mut self, value: u8) -> (r: Result<(), CanError>)
        ensures
            r is Ok,
            final(self)@ == with_field(old(self)@, 12, 2, value as u64),
    {
        store_bits(&mut self.raw, 12, 14, value as u64);
        Ok(())
    }
    /// The `value_var_size` signal as the payload word holds it.
    pub open spec fn spec_value_var_size(&self) -> u8 {
        field_of(self@, 14, 2) as u8
    }

    /// value_var_size
    ///
    /// - Min: 0
    /// - Max: 2
    /// - Unit: "slave var size"
    /// - Receivers: VECTOR_XXX
    pub fn value_var_size(&self) -> (r: DpsSlaveMexValueVarSize)
        ensures
            r == DpsSlaveMexValueVarSize::from_raw(self.spec_value_var_size()),
    {
        let signal: u8 = load_bits(&self.raw, 14, 16) as u8;
        match signal {
            0 => DpsSlaveMexValueVarSize::X8Bit,
            1 => DpsSlaveMexValueVarSize::X16Bit,
            2 => DpsSlaveMexValueVarSize::X32Bit,
            _ => DpsSlaveMexValueVarSize::_Other(self.value_var_size_raw()),
        }
    }

    /// Get raw value of value_var_size
    ///
    /// - Start bit: 14
    /// - Signal size: 2 bits
    /// - Factor: 1
    /// - Offset: 0
    /// - Byte order: LittleEndian
    /// - Value type: Unsigned
    pub fn value_var_size_raw(&self) -> (r: u8)
        ensures
            r == self.spec_value_var_size(),
    {
        load_bits(&self.raw, 14, 16) as u8
    }

    /// Set value of value_var_size
    ///
    /// The low 2 bits of `value` are stored; range checking against the
    /// limits above is not done.
    pub fn set_value_var_size(&mut self, value: u8) -> (r: Result<(), CanError>)
        ensures
            r is Ok,
            final(self)@ == with_field(old(self)@, 14, 2, value as u64),
    {
        store_bits(&mut self.raw, 14, 16, value as u64);
        Ok(())
    }
}
/// One multiplexed layout of `DpsSlaveMex`: the payload seen through the
/// signals of this mode.
#[derive(Default, Debug)]
pub struct DpsSlaveMexModeM3 {
    raw: [u8; 8],
}

impl View for DpsSlaveMexModeM3 {
    type V = u64;

    closed spec fn view(&self) -> u64 {
        le_word(self.raw@)
    }
}

impl DpsSlaveMexModeM3 {
    /// A payload with every bit clear.
    pub fn new() -> (r: Self)
        ensures
            r@ == 0,
    {
        let r = Self { raw: [0u8; 8] };
        proof {
            lemma_zero_word(r.raw@);
        }
        r
    }
    /// The `var_id` signal as the payload word holds it.
    pub open spec fn spec_var_id(&self) -> u8 {
        field_of(self@, 8, 4) as u8
    }

    /// var_id
    ///
    /// - Min: 0
    /// - Max: 15
    /// - Unit: "slave var id"
    /// - Receivers: VECTOR_XXX
    pub fn var_id(&self) -> (r: u8)
        ensures
            r == self.spec_var_id(),
    {
        self.var_id_raw()
    }

    /// Get raw value of var_id
    ///
    /// - Start bit: 8
    /// - Signal size: 4 bits
    /// - Factor: 1
    /// - Offset: 0
    /// - Byte order: LittleEndian
    /// - Value type: Unsigned
    pub fn var_id_raw(&self) -> (r: u8)
        ensures
            r == self.spec_var_id(),
    {
        load_bits(&self.raw, 8, 12) as u8
    }

    /// Set value of var_id
    ///
    /// The low 4 bits of `value` are stored; range checking against the
    /// limits above is not done.
    pub fn set_var_id(&mut self, value: u8) -> (r: Result<(), CanError>)
        ensures
            r is Ok,
            final(self)@ == with_field(old(self)@, 8, 4, value as u64),
    {
        store_bits(&mut self.raw, 8, 12, value as u64);
        Ok(())
    }
    /// The `value` signal as the payload word holds it.
    pub open spec fn spec_value(&self) -> u32 {
        field_of(self@, 16, 32) as u32
    }

    /// value
    ///
    /// - Min: 0
    /// - Max: 2
    /// - Unit: "slave var value"
    /// - Receivers: VECTOR_XXX
    pub fn value(&self) -> (r: u32)
        ensures
            r == self.spec_value(),
    {
        self.value_raw()
    }

    /// Get raw value of value
    ///
    /// - Start bit: 16
    /// - Signal size: 32 bits
    /// - Factor: 1
    /// - Offset: 0
    /// - Byte order: LittleEndian
    /// - Value type: Unsigned
    pub fn value_raw(&self) -> (r: u32)
        ensures
            r == self.spec_value(),
    {
        load_bits(&self.raw, 16, 48) as u32
    }

    /// Set value of value
    ///
    /// The low 32 bits of `value` are stored; range checking against the
    /// limits above is not done.
    pub fn set_value(&mut self, value: u32) -> (r: Result<(), CanError>)
        ensures
            r is Ok,
            final(self)@ == with_field(old(self)@, 16, 32, value as u64),
    {
        store_bits(&mut self.raw, 16, 48, value as u64);
        Ok(())
    }
}

/// DpsMasterMex
///
/// - ID: 651 (0x28b)
/// - Size: 8 bytes
/// - Transmitter: MASTER
#[derive(Clone, Copy, Debug)]
pub struct DpsMasterMex {
    raw: [u8; 8],
}

impl View for DpsMasterMex {
    type V = u64;

    closed spec fn view(&self) -> u64 {
        le_word(self.raw@)
    }
}

impl DpsMasterMex {
    pub const MESSAGE_ID: u32 = 651;

    pub const MODE_MIN: u8 = 0u8;
    pub const MODE_MAX: u8 = 15u8;
    pub const VAR_NAME_BOARD_ID_MIN: u8 = 0u8;
    pub const VAR_NAME_BOARD_ID_MAX: u8 = 15u8;
    pub const VAR_REFRESH_BOARD_ID_MIN: u8 = 0u8;
    pub const VAR_REFRESH_BOARD_ID_MAX: u8 = 15u8;
    pub const VAR_REFRESH_VAR_ID_MIN: u8 = 0u8;
    pub const VAR_REFRESH_VAR_ID_MAX: u8 = 15u8;
    pub const VAR_VALUE_BOARD_ID_MIN: u8 = 0u8;
    pub const VAR_VALUE_BOARD_ID_MAX: u8 = 15u8;
    pub const VAR_VALUE_VAR_ID_MIN: u8 = 0u8;
    pub const VAR_VALUE_VAR_ID_MAX: u8 = 15u8;
    pub const VALUE_MIN: u32 = 0u32;
    pub const VALUE_MAX: u32 = 0u32;

    /// Construct new DpsMasterMex from values
    pub fn new(mode: u8) -> (r: Result<Self, CanError>)
        ensures
            r matches Ok(m) && m@ == with_field(0, 0, 4, mode as u64),
    {
        let mut res = Self { raw: [0u8; 8] };
        proof {
            lemma_zero_word(res.raw@);
        }
        res.set_mode(mode)?;
        Ok(res)
    }

    /// Access message payload raw value
    pub fn raw(&self) -> (r: &[u8; 8])
        ensures
            le_word(r@) == self@,
    {
        &self.raw
    }

    /// The multiplexor as the payload word holds it.
    pub open spec fn spec_mode(&self) -> u8 {
        field_of(self@, 0, 4) as u8
    }

    /// Get raw value of Mode
    ///
    /// - Start bit: 0
    /// - Signal size: 4 bits
    /// - Factor: 1
    /// - Offset: 0
    /// - Byte order: LittleEndian
    /// - Value type: Unsigned
    pub fn mode_raw(&self) -> (r: u8)
        ensures
            r == self.spec_mode(),
    {
        load_bits(&self.raw, 0, 4) as u8
    }

    /// The payload seen through the signals that its multiplexor selects;
    /// a multiplexor above 3 is refused.
    pub fn mode(&mut self) -> (r: Result<DpsMasterMexMode, CanError>)
        ensures
            *final(self) == *old(self),
            old(self).spec_mode() <= 3 ==> (r matches Ok(md) && md.index() == old(self).spec_mode()
                && md.word() == old(self)@),
            old(self).spec_mode() > 3 ==> r == Err::<DpsMasterMexMode, CanError>(
                CanError::InvalidMultiplexor {
                    message_id: 651,
                    multiplexor: old(self).spec_mode() as u16,
                },
            ),
    {
        match self.mode_raw() {
            0 => Ok(DpsMasterMexMode::M0(DpsMasterMexModeM0 { raw: self.raw })),
            1 => Ok(DpsMasterMexMode::M1(DpsMasterMexModeM1 { raw: self.raw })),
            2 => Ok(DpsMasterMexMode::M2(DpsMasterMexModeM2 { raw: self.raw })),
            3 => Ok(DpsMasterMexMode::M3(DpsMasterMexModeM3 { raw: self.raw })),
            multiplexor => Err(
                CanError::InvalidMultiplexor { message_id: 651, multiplexor: multiplexor as u16 },
            ),
        }
    }

    /// Set value of Mode
    fn set_mode(&mut self, value: u8) -> (r: Result<(), CanError>)
        ensures
            r is Ok,
            final(self)@ == with_field(old(self)@, 0, 4, value as u64),
    {
        store_bits(&mut self.raw, 0, 4, value as u64);
        Ok(())
    }

    /// Set value of Mode: merges the signals of `value` into this payload
    /// (bitwise or) and sets the multiplexor to 0.
    pub fn set_m0(&mut self, value: DpsMasterMexModeM0) -> (r: Result<(), CanError>)
        ensures
            r is Ok,
            final(self)@ == with_field(old(self)@ | value@, 0, 4, 0),
    {
        let merged: [u8; 8] = or_payloads(self.raw, value.raw);
        proof {
            lemma_or_word(self.raw@, value.raw@, merged@);
        }
        self.raw = merged;
        self.set_mode(0)?;
        Ok(())
    }

    /// Set value of Mode: merges the signals of `value` into this payload
    /// (bitwise or) and sets the multiplexor to 1.
    pub fn set_m1(&mut self, value: DpsMasterMexModeM1) -> (r: Result<(), CanError>)
        ensures
            r is Ok,
            final(self)@ == with_field(old(self)@ | value@, 0, 4, 1),
    {
        let merged: [u8; 8] = or_payloads(self.raw, value.raw);
        proof {
            lemma_or_word(self.raw@, value.raw@, merged@);
        }
        self.raw = merged;
        self.set_mode(1)?;
        Ok(())
    }

    /// Set value of Mode: merges the signals of `value` into this payload
    /// (bitwise or) and sets the multiplexor to 2.
    pub fn set_m2(&mut self, value: DpsMasterMexModeM2) -> (r: Result<(), CanError>)
        ensures
            r is Ok,
            final(self)@ == with_field(old(self)@ | value@, 0, 4, 2),
    {
        let merged: [u8; 8] = or_payloads(self.raw, value.raw);
        proof {
            lemma_or_word(self.raw@, value.raw@, merged@);
        }
        self.raw = merged;
        self.set_mode(2)?;
        Ok(())
    }

    /// Set value of Mode: merges the signals of `value` into this payload
    /// (bitwise or) and sets the multiplexor to 3.
    pub fn set_m3(&mut self, value: DpsMasterMexModeM3) -> (r: Result<(), CanError>)
        ensures
            r is Ok,
            final(self)@ == with_field(old(self)@ | value@, 0, 4, 3),
    {
        let merged: [u8; 8] = or_payloads(self.raw, value.raw);
        proof {
            lemma_or_word(self.raw@, value.raw@, merged@);
        }
        self.raw = merged;
        self.set_mode(3)?;
        Ok(())
    }
}

impl<'a> core::convert::TryFrom<&'a [u8]> for DpsMasterMex {
    type Error = CanError;

    fn try_from(payload: &'a [u8]) -> (r: Result<Self, CanError>)
        ensures
            payload@.len() == 8 ==> (r matches Ok(m) && m@ == le_word(payload@)),
            payload@.len() != 8 ==> r == Err::<Self, CanError>(CanError::InvalidPayloadSize),
    {
        if payload.len() != 8 {
            return Err(CanError::InvalidPayloadSize);
        }
        let raw: [u8; 8] = payload_array(payload);
        proof {
            let chosen = choose|a: [u8; 8]| a@ == payload@;
            assert(raw@ == payload@);
            assert(chosen@ == payload@);
            assert(chosen =~= raw);
        }
        Ok(Self { raw })
    }
}

impl<'a> vstd::std_specs::convert::TryFromSpecImpl<&'a [u8]> for DpsMasterMex {
    open spec fn obeys_try_from_spec() -> bool {
        true
    }

    closed spec fn try_from_spec(payload: &'a [u8]) -> Result<Self, CanError> {
        if payload@.len() == 8 {
            Ok(DpsMasterMex { raw: choose|a: [u8; 8]| a@ == payload@ })
        } else {
            Err(CanError::InvalidPayloadSize)
        }
    }
}

/// Defined values for multiplexed signal DpsMasterMex
#[derive(Debug)]
pub enum DpsMasterMexMode {
    M0(DpsMasterMexModeM0),
    M1(DpsMasterMexModeM1),
    M2(DpsMasterMexModeM2),
    M3(DpsMasterMexModeM3),
}

impl DpsMasterMexMode {
    /// The multiplexor value of the variant.
    pub open spec fn index(&self) -> u8 {
        match self {
            DpsMasterMexMode::M0(_) => 0,
            DpsMasterMexMode::M1(_) => 1,
            DpsMasterMexMode::M2(_) => 2,
            DpsMasterMexMode::M3(_) => 3,
        }
    }

    /// The payload word that the variant carries.
    pub open spec fn word(&self) -> u64 {
        match self {
            DpsMasterMexMode::M0(m) => m@,
            DpsMasterMexMode::M1(m) => m@,
            DpsMasterMexMode::M2(m) => m@,
            DpsMasterMexMode::M3(m) => m@,
        }
    }
}
/// One multiplexed layout of `DpsMasterMex`: the payload seen through the
/// signals of this mode.
#[derive(Default, Debug)]
pub struct DpsMasterMexModeM0 {
    raw: [u8; 8],
}

impl View for DpsMasterMexModeM0 {
    type V = u64;

    closed spec fn view(&self) -> u64 {
        le_word(self.raw@)
    }
}

impl DpsMasterMexModeM0 {
    /// A payload with every bit clear.
    pub fn new() -> (r: Self)
        ensures
            r@ == 0,
    {
        let r = Self { raw: [0u8; 8] };
        proof {
            lemma_zero_word(r.raw@);
        }
        r
    }
    /// The `reserved` signal as the payload word holds it.
    pub open spec fn spec_reserved(&self) -> bool {
        field_of(self@, 4, 1) == 1
    }

    /// reserved
    ///
    /// - Min: 0
    /// - Max: 0
    /// - Unit: ""
    /// - Receivers: VECTOR_XXX
    pub fn reserved(&self) -> (r: bool)
        ensures
            r == self.spec_reserved(),
    {
        self.reserved_raw()
    }

    /// Get raw value of reserved
    ///
    /// - Start bit: 4
    /// - Signal size: 1 bits
    /// - Factor: 1
    /// - Offset: 0
    /// - Byte order: LittleEndian
    /// - Value type: Unsigned
    pub fn reserved_raw(&self) -> (r: bool)
        ensures
            r == self.spec_reserved(),
    {
        let bits: u64 = load_bits(&self.raw, 4, 5);
        proof {
            lemma_signal_bounds(self@);
        }
        let signal: u8 = bits as u8;
        signal == 1
    }

    /// Set value of reserved
    pub fn set_reserved(&mut self, value: bool) -> (r: Result<(), CanError>)
        ensures
            r is Ok,
            final(self)@ == with_field(old(self)@, 4, 1, if value { 1 } else { 0 }),
    {
        let value: u8 = if value { 1 } else { 0 };
        store_bits(&mut self.raw, 4, 5, value as u64);
        Ok(())
    }
}
/// One multiplexed layout of `DpsMasterMex`: the payload seen through the
/// signals of this mode.
#[derive(Default, Debug)]
pub struct DpsMasterMexModeM1 {
    raw: [u8; 8],
}

impl View for DpsMasterMexModeM1 {
    type V = u64;

    closed spec fn view(&self) -> u64 {
        le_word(self.raw@)
    }
}

impl DpsMasterMexModeM1 {
    /// A payload with every bit clear.
    pub fn new() -> (r: Self)
        ensures
            r@ == 0,
    {
        let r = Self { raw: [0u8; 8] };
        proof {
            lemma_zero_word(r.raw@);
        }
        r
    }
    /// The `var_name_board_id` signal as the payload word holds it.
    pub open spec fn spec_var_name_board_id(&self) -> u8 {
        field_of(self@, 4, 4) as u8
    }

    /// var_name_board_id
    ///
    /// - Min: 0
    /// - Max: 15
    /// - Unit: "slave board id"
    /// - Receivers: VECTOR_XXX
    pub fn var_name_board_id(&self) -> (r: u8)
        ensures
            r == self.spec_var_name_board_id(),
    {
        self.var_name_board_id_raw()
    }

    /// Get raw value of var_name_board_id
    ///
    /// - Start bit: 4
    /// - Signal size: 4 bits
    /// - Factor: 1
    /// - Offset: 0
    /// - Byte order: LittleEndian
    /// - Value type: Unsigned
    pub fn var_name_board_id_raw(&self) -> (r: u8)
        ensures
            r == self.spec_var_name_board_id(),
    {
        load_bits(&self.raw, 4, 8) as u8
    }

    /// Set value of var_name_board_id
    ///
    /// The low 4 bits of `value` are stored; range checking against the
    /// limits above is not done.
    pub fn set_var_name_board_id(&mut self, value: u8) -> (r: Result<(), CanError>)
        ensures
            r is Ok,
            final(self)@ == with_field(old(self)@, 4, 4, value as u64),
    {
        store_bits(&mut self.raw, 4, 8, value as u64);
        Ok(())
    }
}
/// One multiplexed layout of `DpsMasterMex`: the payload seen through the
/// signals of this mode.
#[derive(Default, Debug)]
pub struct DpsMasterMexModeM2 {
    raw: [u8; 8],
}

impl View for DpsMasterMexModeM2 {
    type V = u64;

    closed spec fn view(&self) -> u64 {
        le_word(self.raw@)
    }
}

impl DpsMasterMexModeM2 {
    /// A payload with every bit clear.
    pub fn new() -> (r: Self)
        ensures
            r@ == 0,
    {
        let r = Self { raw: [0u8; 8] };
        proof {
            lemma_zero_word(r.raw@);
        }
        r
    }
    /// The `var_refresh_board_id` signal as the payload word holds it.
    pub open spec fn spec_var_refresh_board_id(&self) -> u8 {
        field_of(self@, 4, 4) as u8
    }

    /// var_refresh_board_id
    ///
    /// - Min: 0
    /// - Max: 15
    /// - Unit: "slave board id"
    /// - Receivers: VECTOR_XXX
    pub fn var_refresh_board_id(&self) -> (r: u8)
        ensures
            r == self.spec_var_refresh_board_id(),
    {
        self.var_refresh_board_id_raw()
    }

    /// Get raw value of var_refresh_board_id
    ///
    /// - Start bit: 4
    /// - Signal size: 4 bits
    /// - Factor: 1
    /// - Offset: 0
    /// - Byte order: LittleEndian
    /// - Value type: Unsigned
    pub fn var_refresh_board_id_raw(&self) -> (r: u8)
        ensures
            r == self.spec_var_refresh_board_id(),
    {
        load_bits(&self.raw, 4, 8) as u8
    }

    /// Set value of var_refresh_board_id
    ///
    /// The low 4 bits of `value` are stored; range checking against the
    /// limits above is not done.
    pub fn set_var_refresh_board_id(&mut self, value: u8) -> (r: Result<(), CanError>)
        ensures
            r is Ok,
            final(self)@ == with_field(old(self)@, 4, 4, value as u64),
    {
        store_bits(&mut self.raw, 4, 8, value as u64);
        Ok(())
    }
    /// The `var_refresh_var_id` signal as the payload word holds it.
    pub open spec fn spec_var_refresh_var_id(&self) -> u8 {
        field_of(self@, 8, 4) as u8
    }

    /// var_refresh_var_id
    ///
    /// - Min: 0
    /// - Max: 15
    /// - Unit: "slave var id"
    /// - Receivers: VECTOR_XXX
    pub fn var_refresh_var_id(&self) -> (r: u8)
        ensures
            r == self.spec_var_refresh_var_id(),
    {
        self.var_refresh_var_id_raw()
    }

    /// Get raw value of var_refresh_var_id
    ///
    /// - Start bit: 8
    /// - Signal size: 4 bits
    /// - Factor: 1
    /// - Offset: 0
    /// - Byte order: LittleEndian
    /// - Value type: Unsigned
    pub fn var_refresh_var_id_raw(&self) -> (r: u8)
        ensures
            r == self.spec_var_refresh_var_id(),
    {
        load_bits(&self.raw, 8, 12) as u8
    }

    /// Set value of var_refresh_var_id
    ///
    /// The low 4 bits of `value` are stored; range checking against the
    /// limits above is not done.
    pub fn set_var_refresh_var_id(&mut self, value: u8) -> (r: Result<(), CanError>)
        ensures
            r is Ok,
            final(self)@ == with_field(old(self)@, 8, 4, value as u64),
    {
        store_bits(&mut self.raw, 8, 12, value as u64);
        Ok(())
    }
}
/// One multiplexed layout of `DpsMasterMex`: the payload seen through the
/// signals of this mode.
#[derive(Default, Debug)]
pub struct DpsMasterMexModeM3 {
    raw: [u8; 8],
}

impl View for DpsMasterMexModeM3 {
    type V = u64;

    closed spec fn view(&self) -> u64 {
        le_word(self.raw@)
    }
}

impl DpsMasterMexModeM3 {
    /// A payload with every bit clear.
    pub fn new() -> (r: Self)
        ensures
            r@ == 0,
    {
        let r = Self { raw: [0u8; 8] };
        proof {
            lemma_zero_word(r.raw@);
        }
        r
    }
    /// The `var_value_board_id` signal as the payload word holds it.
    pub open spec fn spec_var_value_board_id(&self) -> u8 {
        field_of(self@, 4, 4) as u8
    }

    /// var_value_board_id
    ///
    /// - Min: 0
    /// - Max: 15
    /// - Unit: "slave board id"
    /// - Receivers: VECTOR_XXX
    pub fn var_value_board_id(&self) -> (r: u8)
        ensures
            r == self.spec_var_value_board_id(),
    {
        self.var_value_board_id_raw()
    }

    /// Get raw value of var_value_board_id
    ///
    /// - Start bit: 4
    /// - Signal size: 4 bits
    /// - Factor: 1
    /// - Offset: 0
    /// - Byte order: LittleEndian
    /// - Value type: Unsigned
    pub fn var_value_board_id_raw(&self) -> (r: u8)
        ensures
            r == self.spec_var_value_board_id(),
    {
        load_bits(&self.raw, 4, 8) as u8
    }

    /// Set value of var_value_board_id
    ///
    /// The low 4 bits of `value` are stored; range checking against the
    /// limits above is not done.
    pub fn set_var_value_board_id(&mut self, value: u8) -> (r: Result<(), CanError>)
        ensures
            r is Ok,
            final(self)@ == with_field(old(self)@, 4, 4, value as u64),
    {
        store_bits(&mut self.raw, 4, 8, value as u64);
        Ok(())
    }
    /// The `var_value_var_id` signal as the payload word holds it.
    pub open spec fn spec_var_value_var_id(&self) -> u8 {
        field_of(self@, 8, 4) as u8
    }

    /// var_value_var_id
    ///
    /// - Min: 0
    /// - Max: 15
    /// - Unit: "slave var id"
    /// - Receivers: VECTOR_XXX
    pub fn var_value_var_id(&self) -> (r: u8)
        ensures
            r == self.spec_var_value_var_id(),
    {
        self.var_value_var_id_raw()
    }

    /// Get raw value of var_value_var_id
    ///
    /// - Start bit: 8
    /// - Signal size: 4 bits
    /// - Factor: 1
    /// - Offset: 0
    /// - Byte order: LittleEndian
    /// - Value type: Unsigned
    pub fn var_value_var_id_raw(&self) -> (r: u8)
        ensures
            r == self.spec_var_value_var_id(),
    {
        load_bits(&self.raw, 8, 12) as u8
    }

    /// Set value of var_value_var_id
    ///
    /// The low 4 bits of `value` are stored; range checking against the
    /// limits above is not done.
    pub fn set_var_value_var_id(&mut self, value: u8) -> (r: Result<(), CanError>)
        ensures
            r is Ok,
            final(self)@ == with_field(old(self)@, 8, 4, value as u64),
    {
        store_bits(&mut self.raw, 8, 12, value as u64);
        Ok(())
    }
    /// The `value` signal as the payload word holds it.
    pub open spec fn spec_value(&self) -> u32 {
        field_of(self@, 16, 32) as u32
    }

    /// value
    ///
    /// - Min: 0
    /// - Max: 0
    /// - Unit: "slave var value"
    /// - Receivers: VECTOR_XXX
    pub fn value(&self) -> (r: u32)
        ensures
            r == self.spec_value(),
    {
        self.value_raw()
    }

    /// Get raw value of value
    ///
    /// - Start bit: 16
    /// - Signal size: 32 bits
    /// - Factor: 1
    /// - Offset: 0
    /// - Byte order: LittleEndian
    /// - Value type: Unsigned
    pub fn value_raw(&self) -> (r: u32)
        ensures
            r == self.spec_value(),
    {
        load_bits(&self.raw, 16, 48) as u32
    }

    /// Set value of value
    ///
    /// The low 32 bits of `value` are stored; range checking against the
    /// limits above is not done.
    pub fn set_value(&mut self, value: u32) -> (r: Result<(), CanError>)
        ensures
            r is Ok,
            final(self)@ == with_field(old(self)@, 16, 32, value as u64),
    {
        store_bits(&mut self.raw, 16, 48, value as u64);
        Ok(())
    }
}

/// Errors of message handling.
#[derive(Clone, Copy, PartialEq, Eq, Structural, Debug)]
pub enum CanError {
    UnknownMessageId(u32),
    /// Signal parameter is not within the range
    /// defined for the message
    ParameterOutOfRange {
        /// message id
        message_id: u32,
    },
    InvalidPayloadSize,
    /// Multiplexor value not defined for the message
    InvalidMultiplexor {
        /// message id
        message_id: u32,
        /// Multiplexor value not defined for the message
        multiplexor: u16,
    },
}

} // verus!
