//! The master node: it discovers the slave boards on the bus, keeps a table
//! of their variables, and builds the frames that query and update them.
//!
//! The node does no bus I/O itself.  Every operation that talks to the slaves
//! returns the frames to send, and the driver of the bus sends them with the
//! retry decisions of `crate::common`.  Frames received from the bus are
//! handed to `check_mex_recv`, which updates the table.
use crate::common::bitfield::{field_of, le_bytes, le_word, low_mask, u64_ne_bytes, with_field};
use crate::slave::node::{discover_word, info_meta_word, info_name_word, parse_u64, DpsSlave, SlaveAction};
use crate::common::messages::{
    CanError, DpsMasterMex, DpsMasterMexModeM1, DpsMasterMexModeM2, DpsMasterMexModeM3, DpsSlaveMex, DpsSlaveMexMode,
    DpsSlaveMexModeM0, DpsSlaveMexModeM1, DpsSlaveMexModeM2, DpsSlaveMexModeM3,
};
use crate::common::types::{le_value2, le_value4, u16_from_le, u32_from_le, DpsValue};
use crate::common::{
    str_from_utf8, CanFrame, CanMessage, DataGenericType, BOARD_NAME_LENGTH, MAX_SEND_TRIES,
    VAR_NAME_LENGTH,
};
use vstd::prelude::*;
use vstd::string::StringSliceAdditionalSpecFns;
use vstd::utf8::valid_utf8;

verus! {

/// Number of variable slots of a board; a variable id is a slot index.
pub const MAX_VAR_FOR_SLAVE: usize = 16;

/// What the master knows of one variable of a board.
pub struct VarModel {
    pub name: Seq<u8>,
    pub value: Seq<u8>,
    pub size: u8,
    pub data_type: DataGenericType,
}

/// What the master knows of one board: its id, its name and its variable
/// slots (always `MAX_VAR_FOR_SLAVE` of them).
pub struct BoardModel {
    pub id: u8,
    pub name: Seq<u8>,
    pub vars: Seq<Option<VarModel>>,
}

/// Variable slots of a board that nothing has been announced for.
pub open spec fn empty_slots() -> Seq<Option<VarModel>> {
    Seq::new(MAX_VAR_FOR_SLAVE as nat, |i: int| None::<VarModel>)
}

/// The record a variable slot gets when a message first names it.
pub open spec fn default_var() -> VarModel {
    VarModel {
        name: Seq::new(VAR_NAME_LENGTH as nat, |i: int| 0u8),
        value: Seq::new(4, |i: int| 0u8),
        size: 0,
        data_type: DataGenericType::Unsigned,
    }
}

/// Whether a board with this id is in the table.
pub open spec fn has_board_id(boards: Seq<BoardModel>, id: u8) -> bool {
    exists|i: int| 0 <= i < boards.len() && boards[i].id == id
}

/// The position of the board with this id.
pub open spec fn board_pos(boards: Seq<BoardModel>, id: u8) -> int {
    choose|i: int| 0 <= i < boards.len() && boards[i].id == id
}

/// No two boards of the table share an id.
pub open spec fn ids_distinct(boards: Seq<BoardModel>) -> bool {
    forall|i: int, j: int|
        0 <= i < boards.len() && 0 <= j < boards.len() && i != j ==> boards[i].id != boards[j].id
}

/// The name a board announces in its 48-bit name signal: the first
/// `BOARD_NAME_LENGTH` bytes of the signal in the machine's byte order.
pub open spec fn announced_name(name: Seq<u8>, signal: u64) -> bool {
    name == le_bytes(signal).take(BOARD_NAME_LENGTH as int) || name == le_bytes(
        signal,
    ).reverse().take(BOARD_NAME_LENGTH as int)
}

/// The board with its slot `var_id` filled with a default record if it was
/// empty.
pub open spec fn with_var_slot(board: BoardModel, var_id: int) -> BoardModel {
    if board.vars[var_id] is None {
        BoardModel { vars: board.vars.update(var_id, Some(default_var())), ..board }
    } else {
        board
    }
}

/// How the table `pre` and the answer of `check_mex_recv` relate to the
/// table `post` after a frame with identifier `mex_id` and payload `p`,
/// on a master listening to `slaves_id`.
pub open spec fn recv_step(
    pre: Seq<BoardModel>,
    slaves_id: u16,
    mex_id: u16,
    p: Seq<u8>,
    r: Result<bool, CanError>,
    post: Seq<BoardModel>,
) -> bool {
    let w = le_word(p);
    let mode = field_of(w, 4, 4);
    let board_id = field_of(w, 0, 4) as u8;
    let var_id = field_of(w, 8, 4);
    if p.len() != 8 {
        r == Err::<bool, CanError>(CanError::InvalidPayloadSize) && post == pre
    } else if mex_id != slaves_id {
        r == Ok::<bool, CanError>(false) && post == pre
    } else if mode > 3 {
        r == Err::<bool, CanError>(
            CanError::InvalidMultiplexor { message_id: 650, multiplexor: mode as u16 },
        ) && post == pre
    } else if mode == 0 {
        if has_board_id(pre, board_id) {
            r == Ok::<bool, CanError>(false) && post == pre
        } else {
            &&& r == Ok::<bool, CanError>(true)
            &&& post.len() == pre.len() + 1
            &&& post.take(pre.len() as int) == pre
            &&& post.last().id == board_id
            &&& post.last().vars == empty_slots()
            &&& announced_name(post.last().name, field_of(w, 16, 48))
        }
    } else if has_board_id(pre, board_id) {
        let i = board_pos(pre, board_id);
        r == Ok::<bool, CanError>(true) && post == pre.update(i, with_var_slot(pre[i], var_id as int))
    } else {
        r == Ok::<bool, CanError>(false) && post == pre
    }
}

/// Whether handling this frame would add a board to the table.
pub open spec fn announces_new_board(pre: Seq<BoardModel>, slaves_id: u16, mex_id: u16, p: Seq<u8>) -> bool {
    let w = le_word(p);
    &&& p.len() == 8
    &&& mex_id == slaves_id
    &&& field_of(w, 4, 4) == 0
    &&& !has_board_id(pre, field_of(w, 0, 4) as u8)
}

/// The value a variable record stands for, by its type and size code.
pub open spec fn decode_var(data_type: DataGenericType, size: u8, v: Seq<u8>) -> Option<DpsValue> {
    match (data_type, size) {
        (DataGenericType::Unsigned, 0) => Some(DpsValue::U8(v[0])),
        (DataGenericType::Signed, 0) => Some(DpsValue::I8(v[0] as i8)),
        (DataGenericType::Unsigned, 1) => Some(DpsValue::U16(le_value2(v[0], v[1]) as u16)),
        (DataGenericType::Signed, 1) => Some(DpsValue::I16(le_value2(v[0], v[1]) as i16)),
        (DataGenericType::Unsigned, 2) => Some(
            DpsValue::U32(le_value4(v[0], v[1], v[2], v[3]) as u32),
        ),
        (DataGenericType::Signed, 2) => Some(
            DpsValue::I32(le_value4(v[0], v[1], v[2], v[3]) as i32),
        ),
        (DataGenericType::Floated, 2) => Some(
            DpsValue::F32Bits(le_value4(v[0], v[1], v[2], v[3]) as u32),
        ),
        _ => None,
    }
}

/// The records of the filled slots, in slot order.
pub open spec fn present_vars(slots: Seq<Option<VarModel>>) -> Seq<VarModel>
    decreases slots.len(),
{
    if slots.len() == 0 {
        Seq::empty()
    } else {
        let prefix = present_vars(slots.drop_last());
        match slots.last() {
            Some(v) => prefix.push(v),
            None => prefix,
        }
    }
}

/// The indices of the filled slots, in slot order.
pub open spec fn present_slots(slots: Seq<Option<VarModel>>) -> Seq<int>
    decreases slots.len(),
{
    if slots.len() == 0 {
        Seq::empty()
    } else {
        let prefix = present_slots(slots.drop_last());
        match slots.last() {
            Some(v) => prefix.push(slots.len() - 1),
            None => prefix,
        }
    }
}

/// The payload word of a "variable value" frame (mode 3): board id, variable
/// id and value in their signals, every other bit clear.
pub open spec fn var_value_word(board_id: u8, var_id: u8, value: u32) -> u64 {
    with_field(
        with_field(with_field(with_field(0, 0, 4, 3), 4, 4, board_id as u64), 8, 4, var_id as u64),
        16,
        32,
        value as u64,
    )
}

/// The payload word of a refresh request (mode 2) for a variable of a
/// board, every other bit clear.
pub open spec fn refresh_request_word(board_id: u8, var_id: u8) -> u64 {
    with_field(with_field(with_field(0, 0, 4, 2), 4, 4, board_id as u64), 8, 4, var_id as u64)
}

/// The payload word of an "information request" frame (mode 1) for a board.
pub open spec fn info_request_word(board_id: u8) -> u64 {
    with_field(with_field(0, 0, 4, 1), 4, 4, board_id as u64)
}

#[derive(Debug, Clone, Copy)]
struct VarRecord {
    name: [u8; VAR_NAME_LENGTH],
    value: [u8; 4],
    size: u8,
    data_type: DataGenericType,
}

impl VarRecord {
    spec fn model(self) -> VarModel {
        VarModel { name: self.name@, value: self.value@, size: self.size, data_type: self.data_type }
    }
}

spec fn slot_model(slot: Option<VarRecord>) -> Option<VarModel> {
    match slot {
        Some(v) => Some(v.model()),
        None => None,
    }
}

#[derive(Debug, Clone, Copy)]
struct MasterRecord {
    id: u8,
    board_name: [u8; BOARD_NAME_LENGTH],
    vars: [Option<VarRecord>; MAX_VAR_FOR_SLAVE],
}

impl MasterRecord {
    spec fn model(self) -> BoardModel {
        BoardModel {
            id: self.id,
            name: self.board_name@,
            vars: Seq::new(MAX_VAR_FOR_SLAVE as nat, |i: int| slot_model(self.vars@[i])),
        }
    }
}

/// A decoded variable and its position among the board's variables.
#[derive(Debug, Clone, Copy)]
pub struct VarInfo {
    var: DpsValue,
    var_id: u8,
}

impl View for VarInfo {
    type V = (DpsValue, u8);

    closed spec fn view(&self) -> (DpsValue, u8) {
        (self.var, self.var_id)
    }
}

impl VarInfo {
    /// The decoded value.
    pub fn value(&self) -> (r: DpsValue)
        ensures
            r == self@.0,
    {
        self.var
    }

    /// The position of the variable among the board's filled slots.
    pub fn var_id(&self) -> (r: u8)
        ensures
            r == self@.1,
    {
        self.var_id
    }
}

/// The master's table of boards, and the identifiers of its frames.
#[derive(Debug)]
pub struct DpsMaster<const SB: usize> {
    master_id: u16,
    slaves_id: u16,
    board_vec: [Option<MasterRecord>; SB],
    board_vec_cursor: usize,
}

/// A board as `list_board` reports it.
#[derive(Debug, Clone, Copy, PartialEq)]
pub struct BoardInfo<'a> {
    pub name: &'a str,
    pub id: u8,
}

/// The stored bytes of a variable's value and its type.
#[derive(Debug)]
pub struct VarValue<'a> {
    raw_data: &'a [u8],
    data_type: DataGenericType,
}

impl<'a> View for VarValue<'a> {
    type V = (Seq<u8>, DataGenericType);

    closed spec fn view(&self) -> (Seq<u8>, DataGenericType) {
        (self.raw_data@, self.data_type)
    }
}

impl<'a> VarValue<'a> {
    /// The four stored value bytes, little-endian.
    pub fn raw_data(&self) -> (r: &'a [u8])
        ensures
            r@ == self@.0,
    {
        self.raw_data
    }

    /// The variable's type.
    pub fn data_type(&self) -> (r: DataGenericType)
        ensures
            r == self@.1,
    {
        self.data_type
    }
}

impl<const SB: usize> DpsMaster<SB> {
    /// The boards in the order they were discovered.
    pub closed spec fn boards(&self) -> Seq<BoardModel> {
        Seq::new(self.board_vec_cursor as nat, |i: int| self.board_vec@[i]->Some_0.model())
    }

    /// The identifier of the frames the master sends.
    pub closed spec fn spec_master_id(&self) -> u16 {
        self.master_id
    }

    /// The identifier of the frames the master accepts.
    pub closed spec fn spec_slaves_id(&self) -> u16 {
        self.slaves_id
    }

    /// Internal consistency of the table.
    pub closed spec fn wf(&self) -> bool {
        &&& self.board_vec_cursor <= SB
        &&& forall|i: int| 0 <= i < SB ==> (i < self.board_vec_cursor <==> self.board_vec@[i] is Some)
        &&& ids_distinct(self.boards())
        &&& forall|i: int| 0 <= i < self.boards().len() ==> #[trigger] self.boards()[i].id < 16
    }

    /// Facts about a well-formed table that its users can rely on.
    pub proof fn lemma_wf(&self)
        requires
            self.wf(),
        ensures
            self.boards().len() <= SB,
            ids_distinct(self.boards()),
            forall|i: int| 0 <= i < self.boards().len() ==> #[trigger] self.boards()[i].vars.len() == MAX_VAR_FOR_SLAVE,
            forall|i: int| 0 <= i < self.boards().len() ==> #[trigger] self.boards()[i].id < 16,
    {
    }

    pub fn new(master_id: u16, slaves_id: u16) -> (r: Self)
        ensures
            r.wf(),
            r.boards() == Seq::<BoardModel>::empty(),
            r.spec_master_id() == master_id,
            r.spec_slaves_id() == slaves_id,
    {
        let r = Self {
            master_id,
            slaves_id,
            board_vec: vstd::array::array_fill_for_copy_types(None),
            board_vec_cursor: 0,
        };
        assert(r.boards() =~= Seq::<BoardModel>::empty());
        r
    }

    /// The position of the board with this id in the table.
    fn _find_board(&self, board_id: u8) -> (r: Option<usize>)
        requires
            self.wf(),
        ensures
            r is Some <==> has_board_id(self.boards(), board_id),
            r matches Some(i) ==> i < self.board_vec_cursor && self.board_vec@[i as int] is Some
                && i == board_pos(self.boards(), board_id),
    {
        let mut i: usize = 0;
        while i < self.board_vec_cursor
            invariant
                self.wf(),
                i <= self.board_vec_cursor,
                forall|j: int| 0 <= j < i ==> self.boards()[j].id != board_id,
            decreases self.board_vec_cursor - i,
        {
            match &self.board_vec[i] {
                Some(b) => {
                    if b.id == board_id {
                        proof {
                            assert(self.boards()[i as int].id == board_id);
                            let k = board_pos(self.boards(), board_id);
                            assert(0 <= k < self.boards().len() && self.boards()[k].id == board_id);
                        }
                        return Some(i);
                    }
                },
                None => {},
            }
            i = i + 1;
        }
        None
    }

    /// Whether a board with this id is in the table.
    pub fn has_board(&self, board_id: u8) -> (r: bool)
        requires
            self.wf(),
        ensures
            r == has_board_id(self.boards(), board_id),
    {
        self._find_board(board_id).is_some()
    }

    /// Adds the board that a name announcement (mode 0) comes from, unless a
    /// board with this id is known.
    fn _get_board_name(&mut self, board_id: u8, dps_slave_mex_mode_m0: &DpsSlaveMexModeM0) -> (r:
        Result<bool, CanError>)
        requires
            old(self).wf(),
            board_id < 16,
            has_board_id(old(self).boards(), board_id) || old(self).boards().len() < SB,
        ensures
            final(self).wf(),
            final(self).spec_master_id() == old(self).spec_master_id(),
            final(self).spec_slaves_id() == old(self).spec_slaves_id(),
            has_board_id(old(self).boards(), board_id) ==> r == Ok::<bool, CanError>(false)
                && final(self).boards() == old(self).boards(),
            !has_board_id(old(self).boards(), board_id) ==> {
                let pre = old(self).boards();
                let post = final(self).boards();
                &&& r == Ok::<bool, CanError>(true)
                &&& post.len() == pre.len() + 1
                &&& post.take(pre.len() as int) == pre
                &&& post.last().id == board_id
                &&& post.last().vars == empty_slots()
                &&& announced_name(post.last().name, dps_slave_mex_mode_m0.spec_board_name())
            },
    {
        let arr = u64_ne_bytes(dps_slave_mex_mode_m0.board_name());
        if self._find_board(board_id).is_some() {
            return Ok(false);
        }
        let ghost pre = self.boards();
        let name: [u8; BOARD_NAME_LENGTH] = [arr[0], arr[1], arr[2], arr[3], arr[4], arr[5], arr[6]];
        let new_board = MasterRecord {
            id: board_id,
            board_name: name,
            vars: vstd::array::array_fill_for_copy_types(None),
        };
        let cursor = self.board_vec_cursor;
        self.board_vec_cursor = cursor + 1;
        self.board_vec[cursor] = Some(new_board);
        proof {
            let post = self.boards();
            assert(name@ =~= arr@.take(BOARD_NAME_LENGTH as int));
            assert(le_bytes(dps_slave_mex_mode_m0.spec_board_name()).len() == 8);
            assert(new_board.model().vars =~= empty_slots());
            assert(post.take(pre.len() as int) =~= pre);
            assert(post.last() == new_board.model());
            assert forall|i: int, j: int|
                0 <= i < post.len() && 0 <= j < post.len() && i != j implies post[i].id
                != post[j].id by {
                if i < pre.len() && j < pre.len() {
                    assert(post[i] == pre[i] && post[j] == pre[j]);
                } else if i < pre.len() {
                    assert(post[i] == pre[i]);
                } else {
                    assert(post[j] == pre[j]);
                }
            }
            assert forall|i: int| 0 <= i < post.len() implies #[trigger] post[i].id < 16 by {
                if i < pre.len() {
                    assert(post[i] == pre[i]);
                }
            }
        }
        Ok(true)
    }

    /// Makes sure that the board `board_id`, if known, has a record in slot
    /// `var_id`: an empty slot gets a default record, a filled one stays as
    /// it is.  Tells whether the board is known.
    fn _update_var_data(&mut self, board_id: u8, var_id: u8) -> (r: bool)
        requires
            old(self).wf(),
            var_id < MAX_VAR_FOR_SLAVE,
        ensures
            final(self).wf(),
            final(self).spec_master_id() == old(self).spec_master_id(),
            final(self).spec_slaves_id() == old(self).spec_slaves_id(),
            r == has_board_id(old(self).boards(), board_id),
            r ==> final(self).boards() == old(self).boards().update(
                board_pos(old(self).boards(), board_id),
                with_var_slot(
                    old(self).boards()[board_pos(old(self).boards(), board_id)],
                    var_id as int,
                ),
            ),
            !r ==> final(self).boards() == old(self).boards(),
    {
        match self._find_board(board_id) {
            Some(i) => {
                let ghost pre = self.boards();
                let mut board = self.board_vec[i].unwrap();
                let ghost old_board = board;
                assert(old_board.model() == pre[i as int]);
                let v = var_id as usize;
                let fresh = VarRecord {
                    name: [0u8; VAR_NAME_LENGTH],
                    value: [0u8; 4],
                    size: 0,
                    data_type: DataGenericType::Unsigned,
                };
                if board.vars[v].is_none() {
                    board.vars[v] = Some(fresh);
                }
                self.board_vec[i] = Some(board);
                proof {
                    let post = self.boards();
                    let expected = with_var_slot(pre[i as int], var_id as int);
                    let dflt = fresh;
                    assert(dflt.model().name =~= default_var().name);
                    assert(dflt.model().value =~= default_var().value);
                    assert(dflt.model() == default_var());
                    if old_board.vars@[var_id as int] is None {
                        assert(board.vars@ == old_board.vars@.update(var_id as int, Some(dflt)));
                    } else {
                        assert(board.vars@ == old_board.vars@);
                    }
                    assert(board.model().vars =~= expected.vars);
                    assert(board.model() == expected);
                    assert(post =~= pre.update(i as int, expected));
                    assert forall|a: int, b: int|
                        0 <= a < post.len() && 0 <= b < post.len() && a != b implies post[a].id
                        != post[b].id by {
                        assert(pre[a].id != pre[b].id);
                    }
                    assert forall|a: int| 0 <= a < post.len() implies #[trigger] post[a].id < 16 by {
                        assert(post[a].id == pre[a].id);
                    }
                }
                true
            },
            None => false,
        }
    }

    fn _get_var_name(&mut self, board_id: u8, dps_slave_mex_mode_m1: &DpsSlaveMexModeM1) -> (r:
        Result<bool, CanError>)
        requires
            old(self).wf(),
        ensures
            final(self).wf(),
            final(self).spec_master_id() == old(self).spec_master_id(),
            final(self).spec_slaves_id() == old(self).spec_slaves_id(),
            r == Ok::<bool, CanError>(has_board_id(old(self).boards(), board_id)),
            has_board_id(old(self).boards(), board_id) ==> final(self).boards() == old(
                self,
            ).boards().update(
                board_pos(old(self).boards(), board_id),
                with_var_slot(
                    old(self).boards()[board_pos(old(self).boards(), board_id)],
                    dps_slave_mex_mode_m1.spec_info_var_id() as int,
                ),
            ),
            !has_board_id(old(self).boards(), board_id) ==> final(self).boards() == old(
                self,
            ).boards(),
    {
        let var_id = dps_slave_mex_mode_m1.info_var_id();
        proof {
            let w = dps_slave_mex_mode_m1@;
            crate::common::bitfield::lemma_signal_bounds(w);
        }
        Ok(self._update_var_data(board_id, var_id))
    }

    fn _get_var_metadata(&mut self, board_id: u8, dps_slave_mex_mode_m2: &DpsSlaveMexModeM2) -> (r:
        Result<bool, CanError>)
        requires
            old(self).wf(),
        ensures
            final(self).wf(),
            final(self).spec_master_id() == old(self).spec_master_id(),
            final(self).spec_slaves_id() == old(self).spec_slaves_id(),
            r == Ok::<bool, CanError>(has_board_id(old(self).boards(), board_id)),
            has_board_id(old(self).boards(), board_id) ==> final(self).boards() == old(
                self,
            ).boards().update(
                board_pos(old(self).boards(), board_id),
                with_var_slot(
                    old(self).boards()[board_pos(old(self).boards(), board_id)],
                    dps_slave_mex_mode_m2.spec_value_var_id() as int,
                ),
            ),
            !has_board_id(old(self).boards(), board_id) ==> final(self).boards() == old(
                self,
            ).boards(),
    {
        let var_id = dps_slave_mex_mode_m2.value_var_id();
        proof {
            let w = dps_slave_mex_mode_m2@;
            crate::common::bitfield::lemma_signal_bounds(w);
        }
        Ok(self._update_var_data(board_id, var_id))
    }

    fn _get_var_value(&mut self, board_id: u8, dps_slave_mex_mode_m3: &DpsSlaveMexModeM3) -> (r:
        Result<bool, CanError>)
        requires
            old(self).wf(),
        ensures
            final(self).wf(),
            final(self).spec_master_id() == old(self).spec_master_id(),
            final(self).spec_slaves_id() == old(self).spec_slaves_id(),
            r == Ok::<bool, CanError>(has_board_id(old(self).boards(), board_id)),
            has_board_id(old(self).boards(), board_id) ==> final(self).boards() == old(
                self,
            ).boards().update(
                board_pos(old(self).boards(), board_id),
                with_var_slot(
                    old(self).boards()[board_pos(old(self).boards(), board_id)],
                    dps_slave_mex_mode_m3.spec_var_id() as int,
                ),
            ),
            !has_board_id(old(self).boards(), board_id) ==> final(self).boards() == old(
                self,
            ).boards(),
    {
        let var_id = dps_slave_mex_mode_m3.var_id();
        proof {
            let w = dps_slave_mex_mode_m3@;
            crate::common::bitfield::lemma_signal_bounds(w);
        }
        Ok(self._update_var_data(board_id, var_id))
    }


    /// The frame that opens a connection: a master frame in mode 0.
    pub fn new_connection(&self) -> (r: Result<CanFrame, CanError>)
        ensures
            r matches Ok(f) && f.id == self.spec_master_id() && f.word() == 0,
    {
        let master_mex = DpsMasterMex::new(0)?;
        proof {
            crate::common::bitfield::lemma_signal_bounds(0);
        }
        Ok(CanFrame { id: self.master_id, payload: *master_mex.raw() })
    }

    /// The information requests (mode 1) for every known board, in the
    /// order the boards were discovered.  The driver sends each of them with
    /// `next_try_after_send`, whatever the outcome of the others.
    pub fn request_info(&self) -> (r: Result<Vec<CanFrame>, CanError>)
        requires
            self.wf(),
        ensures
            r matches Ok(frames) && frames@.len() == self.boards().len() && forall|k: int|
                0 <= k < frames@.len() ==> (#[trigger] frames@[k]).id == self.spec_master_id()
                    && frames@[k].word() == info_request_word(self.boards()[k].id),
    {
        let mut frames: Vec<CanFrame> = Vec::new();
        let mut i: usize = 0;
        while i < self.board_vec_cursor
            invariant
                self.wf(),
                i <= self.board_vec_cursor,
                frames@.len() == i,
                forall|k: int|
                    0 <= k < i ==> (#[trigger] frames@[k]).id == self.master_id && frames@[k].word()
                        == info_request_word(self.boards()[k].id),
            decreases self.board_vec_cursor - i,
        {
            match &self.board_vec[i] {
                Some(board) => {
                    let mut master_mex = DpsMasterMex::new(1)?;
                    let mut master_mode_1 = DpsMasterMexModeM1::new();
                    master_mode_1.set_var_name_board_id(board.id)?;
                    master_mex.set_m1(master_mode_1)?;
                    proof {
                        let b = board.id;
                        assert(with_field(with_field(0, 0, 4, 1) | with_field(0, 4, 4, b as u64), 0, 4, 1)
                            == info_request_word(b)) by (bit_vector);
                        assert(self.boards()[i as int].id == b);
                    }
                    frames.push(CanFrame { id: self.master_id, payload: *master_mex.raw() });
                },
                None => {},
            }
            i = i + 1;
        }
        Ok(frames)
    }

    /// Whether every known board name is valid UTF-8, which `list_board`
    /// needs.
    pub fn names_are_utf8(&self) -> (r: bool)
        requires
            self.wf(),
        ensures
            r == forall|i: int| 0 <= i < self.boards().len() ==> valid_utf8(#[trigger] self.boards()[i].name),
    {
        let mut i: usize = 0;
        while i < self.board_vec_cursor
            invariant
                self.wf(),
                i <= self.board_vec_cursor,
                forall|j: int| 0 <= j < i ==> valid_utf8(#[trigger] self.boards()[j].name),
            decreases self.board_vec_cursor - i,
        {
            match &self.board_vec[i] {
                Some(board) => {
                    if str_from_utf8(board.board_name.as_slice()).is_none() {
                        assert(!valid_utf8(self.boards()[i as int].name));
                        return false;
                    }
                },
                None => {},
            }
            i = i + 1;
        }
        true
    }

    /// The known boards, in the order they were discovered, in the first
    /// slots of the result; the other slots are `None`.  Every board name
    /// must be valid UTF-8.
    pub fn list_board(&self) -> (r: [Option<BoardInfo<'_>>; SB])
        requires
            self.wf(),
            forall|i: int| 0 <= i < self.boards().len() ==> valid_utf8(#[trigger] self.boards()[i].name),
        ensures
            forall|i: int|
                0 <= i < SB ==> (i < self.boards().len() ==> (#[trigger] r@[i] matches Some(info)
                    && info.id == self.boards()[i].id && info.name.spec_bytes()
                    == self.boards()[i].name)) && (i >= self.boards().len() ==> r@[i] is None),
    {
        let mut vec_board_res: [Option<BoardInfo<'_>>; SB] = vstd::array::array_fill_for_copy_types(
            None,
        );
        let mut i: usize = 0;
        while i < self.board_vec_cursor
            invariant
                self.wf(),
                i <= self.board_vec_cursor,
                forall|j: int| 0 <= j < self.boards().len() ==> valid_utf8(#[trigger] self.boards()[j].name),
                forall|j: int|
                    0 <= j < SB ==> (j < i ==> (#[trigger] vec_board_res@[j] matches Some(info)
                        && info.id == self.boards()[j].id && info.name.spec_bytes()
                        == self.boards()[j].name)) && (j >= i ==> vec_board_res@[j] is None),
            decreases self.board_vec_cursor - i,
        {
            match &self.board_vec[i] {
                Some(board) => {
                    assert(valid_utf8(self.boards()[i as int].name));
                    match str_from_utf8(board.board_name.as_slice()) {
                        Some(name) => {
                            vec_board_res[i] = Some(BoardInfo { name, id: board.id });
                        },
                        None => {},
                    }
                },
                None => {},
            }
            i = i + 1;
        }
        vec_board_res
    }

    /// The value of a variable record, by its type and size code.
    fn decode_record(var: &VarRecord) -> (r: Option<DpsValue>)
        ensures
            r == decode_var(var.data_type, var.size, var.value@),
    {
        let v = &var.value;
        match (var.data_type, var.size) {
            (DataGenericType::Unsigned, 0) => Some(DpsValue::U8(v[0])),
            (DataGenericType::Signed, 0) => Some(DpsValue::I8(v[0] as i8)),
            (DataGenericType::Unsigned, 1) => Some(DpsValue::U16(u16_from_le(v[0], v[1]))),
            (DataGenericType::Signed, 1) => Some(DpsValue::I16(u16_from_le(v[0], v[1]) as i16)),
            (DataGenericType::Unsigned, 2) => Some(DpsValue::U32(u32_from_le(v[0], v[1], v[2], v[3]))),
            (DataGenericType::Signed, 2) => Some(
                DpsValue::I32(u32_from_le(v[0], v[1], v[2], v[3]) as i32),
            ),
            (DataGenericType::Floated, 2) => Some(
                DpsValue::F32Bits(u32_from_le(v[0], v[1], v[2], v[3])),
            ),
            (_, _) => None,
        }
    }

    /// The variables of a board, decoded.  The `k`-th filled slot of the
    /// board (in slot order) goes to position `k` of the result with
    /// `var_id` `k`, or leaves that position `None` when its type and size
    /// code have no decoding.  `None` for an unknown board and for a board
    /// without variables.
    pub fn list_vars(&self, board_id: u8) -> (r: Option<[Option<VarInfo>; MAX_VAR_FOR_SLAVE]>)
        requires
            self.wf(),
        ensures
            !has_board_id(self.boards(), board_id) ==> r is None,
            has_board_id(self.boards(), board_id) ==> {
                let present = present_vars(self.boards()[board_pos(self.boards(), board_id)].vars);
                &&& (r is None <==> present.len() == 0)
                &&& r matches Some(arr) ==> forall|k: int|
                    0 <= k < MAX_VAR_FOR_SLAVE ==> (k < present.len() ==> match decode_var(
                        present[k].data_type,
                        present[k].size,
                        present[k].value,
                    ) {
                        Some(v) => #[trigger] arr@[k] matches Some(info) && info@ == (v, k as u8),
                        None => arr@[k] is None,
                    }) && (k >= present.len() ==> arr@[k] is None)
            },
    {
        let idx = self._find_board(board_id);
        if idx.is_none() {
            return None;
        }
        let idx = idx.unwrap();
        let board = self.board_vec[idx].unwrap();
        let ghost slots = self.boards()[idx as int].vars;
        assert(board.model() == self.boards()[idx as int]);
        let mut vec_res: [Option<VarInfo>; MAX_VAR_FOR_SLAVE] = vstd::array::array_fill_for_copy_types(
            None,
        );
        let mut empty = true;
        let mut var_cursor: usize = 0;
        let mut j: usize = 0;
        while j < MAX_VAR_FOR_SLAVE
            invariant
                j <= MAX_VAR_FOR_SLAVE,
                slots == board.model().vars,
                var_cursor == present_vars(slots.take(j as int)).len(),
                var_cursor <= j,
                empty == (var_cursor == 0),
                forall|k: int|
                    0 <= k < MAX_VAR_FOR_SLAVE ==> (k < var_cursor ==> {
                        let pv = present_vars(slots.take(j as int))[k];
                        match decode_var(pv.data_type, pv.size, pv.value) {
                            Some(v) => #[trigger] vec_res@[k] matches Some(info) && info@ == (
                                v,
                                k as u8,
                            ),
                            None => vec_res@[k] is None,
                        }
                    }) && (k >= var_cursor ==> vec_res@[k] is None),
            decreases MAX_VAR_FOR_SLAVE - j,
        {
            proof {
                assert(slots.take(j + 1).drop_last() =~= slots.take(j as int));
                assert(slots.take(j + 1).last() == slots[j as int]);
                assert(slots[j as int] == slot_model(board.vars@[j as int]));
            }
            match &board.vars[j] {
                Some(var) => {
                    let ghost before = present_vars(slots.take(j as int));
                    proof {
                        assert(present_vars(slots.take(j + 1)) == before.push(var.model()));
                    }
                    match Self::decode_record(var) {
                        Some(v) => {
                            vec_res[var_cursor] = Some(VarInfo { var: v, var_id: var_cursor as u8 });
                        },
                        None => {},
                    }
                    var_cursor = var_cursor + 1;
                    empty = false;
                },
                None => {
                    proof {
                        assert(present_vars(slots.take(j + 1)) == present_vars(slots.take(j as int)));
                    }
                },
            }
            j = j + 1;
        }
        assert(slots.take(MAX_VAR_FOR_SLAVE as int) =~= slots);
        if empty {
            None
        } else {
            Some(vec_res)
        }
    }


    /// The position of board `board_id` in the table, when that board has a
    /// record in slot `var_id`.
    fn _find_var(&self, board_id: u8, var_id: u8) -> (r: Option<usize>)
        requires
            self.wf(),
            has_board_id(self.boards(), board_id) ==> var_id < MAX_VAR_FOR_SLAVE,
        ensures
            r is Some <==> has_board_id(self.boards(), board_id) && self.boards()[board_pos(
                self.boards(),
                board_id,
            )].vars[var_id as int] is Some,
            r matches Some(i) ==> i == board_pos(self.boards(), board_id) && i
                < self.board_vec_cursor,
    {
        let b = self._find_board(board_id)?;
        match &self.board_vec[b] {
            Some(board) => {
                assert(board.model() == self.boards()[b as int]);
                match &board.vars[var_id as usize] {
                    None => None,
                    Some(_) => Some(b),
                }
            },
            None => None,
        }
    }

    /// The stored value bytes and the type of a variable; `None` when the
    /// board is unknown or has no record in slot `var_id`.  For a known board
    /// `var_id` must be a slot index.
    pub fn get_value_var(&self, board_id: u8, var_id: u8) -> (r: Option<VarValue<'_>>)
        requires
            self.wf(),
            has_board_id(self.boards(), board_id) ==> var_id < MAX_VAR_FOR_SLAVE,
        ensures
            r is Some <==> has_board_id(self.boards(), board_id) && self.boards()[board_pos(
                self.boards(),
                board_id,
            )].vars[var_id as int] is Some,
            r matches Some(vv) ==> {
                let var = self.boards()[board_pos(self.boards(), board_id)].vars[var_id as int]->Some_0;
                vv@ == (var.value, var.data_type)
            },
    {
        let b = self._find_var(board_id, var_id)?;
        match &self.board_vec[b] {
            Some(board) => {
                assert(board.model() == self.boards()[b as int]);
                match &board.vars[var_id as usize] {
                    Some(var) => Some(VarValue { raw_data: var.value.as_slice(), data_type: var.data_type }),
                    None => None,
                }
            },
            None => None,
        }
    }

    /// A refresh request (mode 2) that names board `board_id` and variable
    /// `var_id`; a slave answers it with the variable's value.
    fn _refresh_request_checked(&self, board_id: u8, var_id: u8) -> (r: Result<CanFrame, CanError>)
        ensures
            r matches Ok(f) && f.id == self.spec_master_id() && f.word() == refresh_request_word(
                board_id,
                var_id,
            ),
    {
        let master_mex = DpsMasterMex::new(2).ok();
        if master_mex.is_none() {
            return Err(
                CanError::InvalidMultiplexor { message_id: self.master_id as u32, multiplexor: 2 },
            );
        }
        let mut master_mex = master_mex.unwrap();
        let mut master_mex_mode_2 = DpsMasterMexModeM2::new();
        master_mex_mode_2.set_var_refresh_board_id(board_id)?;
        master_mex_mode_2.set_var_refresh_var_id(var_id)?;
        master_mex.set_m2(master_mex_mode_2)?;
        proof {
            let b = board_id;
            let v = var_id;
            assert(with_field(
                with_field(0, 0, 4, 2) | with_field(with_field(0, 4, 4, b as u64), 8, 4, v as u64),
                0,
                4,
                2,
            ) == refresh_request_word(b, v)) by (bit_vector);
        }
        Ok(CanFrame { id: self.master_id, payload: *master_mex.raw() })
    }

    /// The refresh request for one variable: a refresh request frame
    /// (mode 2) for the board and the variable.  `None` when
    /// the board is unknown or has no record in slot `var_id`.  The driver
    /// sends it with `next_try_checked` and reports `Ok(())` whatever the
    /// outcome.  For a known board `var_id` must be a slot index.
    pub fn refresh_value_var(&self, board_id: u8, var_id: u8) -> (r: Result<Option<CanFrame>, CanError>)
        requires
            self.wf(),
            has_board_id(self.boards(), board_id) ==> var_id < MAX_VAR_FOR_SLAVE,
        ensures
            r matches Ok(o) && (o is Some <==> has_board_id(self.boards(), board_id)
                && self.boards()[board_pos(self.boards(), board_id)].vars[var_id as int] is Some)
                && (o matches Some(f) ==> f.id == self.spec_master_id() && f.word()
                == refresh_request_word(board_id, var_id)),
    {
        if self._find_board(board_id).is_none() {
            return Ok(None);
        }
        if self._find_var(board_id, var_id).is_none() {
            return Ok(None);
        }
        let frame = self._refresh_request_checked(board_id, var_id)?;
        Ok(Some(frame))
    }

    /// The refresh requests for every variable of a board: one refresh
    /// request frame (mode 2) per filled slot, in slot order.  None
    /// for an unknown board.  The driver sends each with `next_try_checked`.
    pub fn refresh_value_var_all(&self, board_id: u8) -> (r: Result<Vec<CanFrame>, CanError>)
        requires
            self.wf(),
        ensures
            r matches Ok(frames) && (!has_board_id(self.boards(), board_id) ==> frames@.len() == 0)
                && (has_board_id(self.boards(), board_id) ==> {
                let slots = present_slots(self.boards()[board_pos(self.boards(), board_id)].vars);
                &&& frames@.len() == slots.len()
                &&& forall|k: int|
                    0 <= k < frames@.len() ==> (#[trigger] frames@[k]).id == self.spec_master_id()
                        && frames@[k].word() == refresh_request_word(board_id, slots[k] as u8)
            }),
    {
        let mut frames: Vec<CanFrame> = Vec::new();
        let idx = self._find_board(board_id);
        if idx.is_none() {
            return Ok(frames);
        }
        let idx = idx.unwrap();
        let board = self.board_vec[idx].unwrap();
        let ghost slots = self.boards()[idx as int].vars;
        assert(board.model() == self.boards()[idx as int]);
        let mut j: usize = 0;
        while j < MAX_VAR_FOR_SLAVE
            invariant
                j <= MAX_VAR_FOR_SLAVE,
                slots == board.model().vars,
                frames@.len() == present_slots(slots.take(j as int)).len(),
                forall|k: int|
                    0 <= k < frames@.len() ==> (#[trigger] frames@[k]).id == self.master_id
                        && frames@[k].word() == refresh_request_word(
                        board_id,
                        present_slots(slots.take(j as int))[k] as u8,
                    ),
            decreases MAX_VAR_FOR_SLAVE - j,
        {
            proof {
                assert(slots.take(j + 1).drop_last() =~= slots.take(j as int));
                assert(slots.take(j + 1).last() == slots[j as int]);
                assert(slots[j as int] == slot_model(board.vars@[j as int]));
                assert(slots.take(j + 1).len() - 1 == j);
            }
            match &board.vars[j] {
                Some(_) => {
                    let frame = self._refresh_request_checked(board_id, j as u8);
                    if let Ok(frame) = frame {
                        frames.push(frame);
                    }
                },
                None => {},
            }
            j = j + 1;
        }
        assert(slots.take(MAX_VAR_FOR_SLAVE as int) =~= slots);
        Ok(frames)
    }

    /// The update of a remote variable: a "variable value" frame (mode 3)
    /// for the board and the variable carrying `data`.  `None` when the
    /// board is unknown or has no record in slot `var_id`.  The driver sends
    /// it with `next_try_after_send` and answers `remote_update_result` of
    /// the final count.  For a known board `var_id` must be a slot index.
    pub fn update_remote_var(&self, board_id: u8, var_id: u8, data: u32) -> (r: Result<
        Option<CanFrame>,
        CanError,
    >)
        requires
            self.wf(),
            has_board_id(self.boards(), board_id) ==> var_id < MAX_VAR_FOR_SLAVE,
        ensures
            r matches Ok(o) && (o is Some <==> has_board_id(self.boards(), board_id)
                && self.boards()[board_pos(self.boards(), board_id)].vars[var_id as int] is Some)
                && (o matches Some(f) ==> f.id == self.spec_master_id() && f.word()
                == var_value_word(board_id, var_id, data)),
    {
        let var = self._find_var(board_id, var_id);
        if var.is_none() {
            return Ok(None);
        }
        let mut master_mex = DpsMasterMex::new(4)?;
        let mut master_mex_mode_3 = DpsMasterMexModeM3::new();
        master_mex_mode_3.set_var_value_board_id(board_id)?;
        master_mex_mode_3.set_var_value_var_id(var_id)?;
        master_mex_mode_3.set_value(data)?;
        master_mex.set_m3(master_mex_mode_3)?;
        proof {
            let b = board_id;
            let v = var_id;
            let x = data;
            assert(with_field(
                with_field(0, 0, 4, 4) | with_field(
                    with_field(with_field(0, 4, 4, b as u64), 8, 4, v as u64),
                    16,
                    32,
                    x as u64,
                ),
                0,
                4,
                3,
            ) == var_value_word(b, v, x)) by (bit_vector);
        }
        Ok(Some(CanFrame { id: self.master_id, payload: *master_mex.raw() }))
    }

    /// What a remote update answers after its frame was sent with
    /// `next_try_after_send` and the loop ended with `tries` failures
    /// counted.
    pub fn remote_update_result(tries: u8) -> (r: Result<(), CanError>)
        ensures
            r == (if tries >= MAX_SEND_TRIES {
                Err::<(), CanError>(CanError::InvalidPayloadSize)
            } else {
                Ok::<(), CanError>(())
            }),
    {
        if tries >= MAX_SEND_TRIES {
            Err(CanError::InvalidPayloadSize)
        } else {
            Ok(())
        }
    }

    /// Whether `check_mex_recv` can take this frame: false exactly when the
    /// frame would add a board to a full table.
    pub fn can_accept(&self, mex: &CanMessage) -> (r: bool)
        requires
            self.wf(),
        ensures
            r == !(announces_new_board(self.boards(), self.spec_slaves_id(), mex.id, mex.payload@)
                && self.boards().len() >= SB),
    {
        if self.board_vec_cursor < SB || mex.id != self.slaves_id {
            return true;
        }
        let slave_mex = match DpsSlaveMex::try_from(mex.payload) {
            Ok(m) => m,
            Err(_) => {
                return true;
            },
        };
        proof {
            crate::common::bitfield::lemma_signal_bounds(slave_mex@);
        }
        if slave_mex.mode_raw() != 0 {
            return true;
        }
        self.has_board(slave_mex.board_id())
    }

    /// Handles a frame received from the bus.
    ///
    /// A frame from the slaves' identifier is decoded by its mode: a name
    /// announcement (mode 0) adds its board unless the board is known
    /// (`Ok(false)` then); a variable name, metadata or value frame
    /// (modes 1 to 3) for a known board makes sure that the board has a
    /// record for the variable and answers `Ok(true)`, and `Ok(false)` for
    /// an unknown board.  The names, types, sizes and values that these
    /// frames carry are not written into the records: a record keeps the
    /// contents it was created with.  A frame from another identifier is
    /// ignored (`Ok(false)`).  A payload that is not 8 bytes long, or a mode
    /// above 3, is an error.
    ///
    /// The table has room for `SB` boards; a frame that would add one more
    /// is outside the contract.
    pub fn check_mex_recv(&mut self, mex: &CanMessage) -> (r: Result<bool, CanError>)
        requires
            old(self).wf(),
            announces_new_board(old(self).boards(), old(self).spec_slaves_id(), mex.id, mex.payload@)
                ==> old(self).boards().len() < SB,
        ensures
            final(self).wf(),
            final(self).spec_master_id() == old(self).spec_master_id(),
            final(self).spec_slaves_id() == old(self).spec_slaves_id(),
            recv_step(
                old(self).boards(),
                old(self).spec_slaves_id(),
                mex.id,
                mex.payload@,
                r,
                final(self).boards(),
            ),
    {
        let mut slave_mex = DpsSlaveMex::try_from(mex.payload)?;
        if mex.id != self.slaves_id {
            return Ok(false);
        }
        let ghost w = slave_mex@;
        proof {
            crate::common::bitfield::lemma_signal_bounds(w);
        }
        let board_id = slave_mex.board_id();
        match slave_mex.mode()? {
            DpsSlaveMexMode::M0(mode_mex) => self._get_board_name(board_id, &mode_mex),
            DpsSlaveMexMode::M1(mode_mex) => self._get_var_name(board_id, &mode_mex),
            DpsSlaveMexMode::M2(mode_mex) => self._get_var_metadata(board_id, &mode_mex),
            DpsSlaveMexMode::M3(mode_mex) => self._get_var_value(board_id, &mode_mex),
        }
    }
}

/// Law: a received frame never forgets a board nor changes what is known of
/// it.  Every board of the table keeps its position, its id and its name,
/// and every filled variable slot keeps its record.
pub proof fn lemma_recv_keeps_known(
    pre: Seq<BoardModel>,
    slaves_id: u16,
    mex_id: u16,
    p: Seq<u8>,
    r: Result<bool, CanError>,
    post: Seq<BoardModel>,
)
    requires
        recv_step(pre, slaves_id, mex_id, p, r, post),
        forall|i: int| 0 <= i < pre.len() ==> #[trigger] pre[i].vars.len() == MAX_VAR_FOR_SLAVE,
    ensures
        pre.len() <= post.len(),
        forall|i: int|
            0 <= i < pre.len() ==> #[trigger] post[i].id == pre[i].id && post[i].name == pre[i].name,
        forall|i: int, s: int|
            0 <= i < pre.len() && 0 <= s < MAX_VAR_FOR_SLAVE && (#[trigger] pre[i].vars[s]) is Some
                ==> post[i].vars[s] == pre[i].vars[s],
{
    let w = le_word(p);
    crate::common::bitfield::lemma_signal_bounds(w);
    if p.len() == 8 && mex_id == slaves_id && field_of(w, 4, 4) == 0 && !has_board_id(
        pre,
        field_of(w, 0, 4) as u8,
    ) {
        assert forall|i: int| 0 <= i < pre.len() implies #[trigger] post[i] == pre[i] by {
            assert(post.take(pre.len() as int)[i] == post[i]);
        }
    }
}

/// Law: after a name announcement (mode 0) from the slaves' identifier the
/// announcing board is known, and the same announcement received again is
/// answered `Ok(false)` and changes nothing.
pub proof fn lemma_announce_idempotent(
    pre: Seq<BoardModel>,
    slaves_id: u16,
    p: Seq<u8>,
    r: Result<bool, CanError>,
    mid: Seq<BoardModel>,
    r2: Result<bool, CanError>,
    post: Seq<BoardModel>,
)
    requires
        p.len() == 8,
        field_of(le_word(p), 4, 4) == 0,
        recv_step(pre, slaves_id, slaves_id, p, r, mid),
        recv_step(mid, slaves_id, slaves_id, p, r2, post),
    ensures
        has_board_id(mid, field_of(le_word(p), 0, 4) as u8),
        r2 == Ok::<bool, CanError>(false),
        post == mid,
{
    let b = field_of(le_word(p), 0, 4) as u8;
    if !has_board_id(pre, b) {
        assert(mid[mid.len() - 1].id == b);
    }
}

/// Law: the reply of a slave to a discovery request, received by a master
/// that listens to the slave's identifier, makes the slave's board known.
/// A board that was not known yet is added last, under the slave's id and
/// with the name the slave sent (its low 48 bits), and the other boards
/// stay as they were.
pub proof fn lemma_discovery_reply_registers(
    pre: Seq<BoardModel>,
    slaves_id: u16,
    board_id: u8,
    name: u64,
    p: Seq<u8>,
    r: Result<bool, CanError>,
    post: Seq<BoardModel>,
)
    requires
        board_id < 16,
        p.len() == 8,
        le_word(p) == discover_word(board_id, name),
        recv_step(pre, slaves_id, slaves_id, p, r, post),
    ensures
        r is Ok,
        has_board_id(post, board_id),
        !has_board_id(pre, board_id) ==> {
            &&& r == Ok::<bool, CanError>(true)
            &&& post.take(pre.len() as int) == pre
            &&& post.last().id == board_id
            &&& post.last().vars == empty_slots()
            &&& announced_name(post.last().name, name & low_mask(48))
        },
{
    let w = discover_word(board_id, name);
    assert(field_of(w, 4, 4) == 0 && field_of(w, 0, 4) == board_id as u64 && field_of(w, 16, 48)
        == name & low_mask(48)) by (bit_vector)
        requires
            w == discover_word(board_id, name),
            board_id < 16,
    ;
    if !has_board_id(pre, board_id) {
        assert(post[post.len() - 1].id == board_id);
    }
}

/// Law: the answer of a slave to an information request, a variable name
/// frame (mode 1) or a variable metadata frame (mode 2) for variable
/// `var_id` of a known board, is accepted and leaves the board with a record
/// in slot `var_id`.
pub proof fn lemma_info_reply_registers_var(
    pre: Seq<BoardModel>,
    slaves_id: u16,
    board_id: u8,
    var_id: u8,
    name: u64,
    metadata: Option<(u8, u8)>,
    p: Seq<u8>,
    r: Result<bool, CanError>,
    post: Seq<BoardModel>,
)
    requires
        board_id < 16,
        var_id < 16,
        has_board_id(pre, board_id),
        forall|i: int| 0 <= i < pre.len() ==> #[trigger] pre[i].vars.len() == MAX_VAR_FOR_SLAVE,
        p.len() == 8,
        le_word(p) == match metadata {
            Some((t, size)) => info_meta_word(board_id, var_id, name, t, size),
            None => info_name_word(board_id, var_id, name),
        },
        recv_step(pre, slaves_id, slaves_id, p, r, post),
    ensures
        r == Ok::<bool, CanError>(true),
        post.len() == pre.len(),
        post[board_pos(pre, board_id)].vars[var_id as int] is Some,
{
    let w = match metadata {
        Some((t, size)) => info_meta_word(board_id, var_id, name, t, size),
        None => info_name_word(board_id, var_id, name),
    };
    match metadata {
        Some((t, size)) => {
            assert(field_of(w, 4, 4) == 2 && field_of(w, 0, 4) == board_id as u64 && field_of(w, 8, 4)
                == var_id as u64) by (bit_vector)
                requires
                    w == info_meta_word(board_id, var_id, name, t, size),
                    board_id < 16,
                    var_id < 16,
            ;
        },
        None => {
            assert(field_of(w, 4, 4) == 1 && field_of(w, 0, 4) == board_id as u64 && field_of(w, 8, 4)
                == var_id as u64) by (bit_vector)
                requires
                    w == info_name_word(board_id, var_id, name),
                    board_id < 16,
                    var_id < 16,
            ;
        },
    }
    let i = board_pos(pre, board_id);
    assert(0 <= i < pre.len());
    assert(pre[i].vars.len() == MAX_VAR_FOR_SLAVE);
}

/// Law: an information request built for a board reads, at a slave, as a
/// master frame in mode 1 that names the board.
pub proof fn lemma_info_request_fields(board_id: u8)
    requires
        board_id < 16,
    ensures
        field_of(info_request_word(board_id), 0, 4) == 1,
        field_of(info_request_word(board_id), 4, 4) == board_id,
{
    assert(field_of(info_request_word(board_id), 0, 4) == 1 && field_of(
        info_request_word(board_id),
        4,
        4,
    ) == board_id as u64) by (bit_vector)
        requires
            board_id < 16,
    ;
}

/// Law: a variable value frame reads, at a slave, as a master frame in mode
/// 3 that names the board and the variable and carries the value.
pub proof fn lemma_var_value_fields(board_id: u8, var_id: u8, value: u32)
    requires
        board_id < 16,
        var_id < 16,
    ensures
        field_of(var_value_word(board_id, var_id, value), 0, 4) == 3,
        field_of(var_value_word(board_id, var_id, value), 4, 4) == board_id,
        field_of(var_value_word(board_id, var_id, value), 8, 4) == var_id,
        field_of(var_value_word(board_id, var_id, value), 16, 32) == value,
{
    let w = var_value_word(board_id, var_id, value);
    assert(field_of(w, 0, 4) == 3 && field_of(w, 4, 4) == board_id as u64 && field_of(w, 8, 4)
        == var_id as u64 && field_of(w, 16, 32) == value as u64) by (bit_vector)
        requires
            w == var_value_word(board_id, var_id, value),
            board_id < 16,
            var_id < 16,
    ;
}

/// Law: a discovery round makes a slave's board known.  An enabled slave
/// whose board name reads as a number answers a discovery request (a
/// master frame in mode 0, such as `new_connection` builds) with one frame,
/// and a master that listens to the slave's identifier and receives that
/// frame then knows the slave's board id.
pub proof fn lemma_discovery_round(
    s: DpsSlave,
    request: Seq<u8>,
    answer: Result<SlaveAction, &'static str>,
    reply: CanFrame,
    pre: Seq<BoardModel>,
    r: Result<bool, CanError>,
    post: Seq<BoardModel>,
)
    requires
        s.wf(),
        s.spec_enabled(),
        s.spec_board_id() < 16,
        request.len() == 8,
        field_of(le_word(request), 0, 4) == 0,
        s.recv_answer(s.spec_master_id(), request, answer),
        answer matches Ok(SlaveAction::Send(v)) && v@.len() > 0 && v@[0].frame == reply,
        recv_step(pre, s.spec_slave_id(), reply.id, reply.payload@, r, post),
    ensures
        r is Ok,
        has_board_id(post, s.spec_board_id()),
{
    let name = parse_u64(s.spec_board_name())->Some_0;
    lemma_discovery_reply_registers(
        pre,
        s.spec_slave_id(),
        s.spec_board_id(),
        name,
        reply.payload@,
        r,
        post,
    );
}

/// Law: an information round makes a slave's variables known.  An enabled
/// slave with a board id below 16 answers an information request for its
/// board with a name and a metadata frame per exposed variable; a master
/// that knows the board and receives any of these frames accepts it and
/// then holds a record in the slot of that frame's variable.
pub proof fn lemma_info_round(
    s: DpsSlave,
    request: Seq<u8>,
    answer: Result<SlaveAction, &'static str>,
    k: int,
    pre: Seq<BoardModel>,
    r: Result<bool, CanError>,
    post: Seq<BoardModel>,
)
    requires
        s.wf(),
        s.spec_enabled(),
        s.spec_board_id() < 16,
        request.len() == 8,
        field_of(le_word(request), 0, 4) == 1,
        field_of(le_word(request), 4, 4) == s.spec_board_id(),
        s.recv_answer(s.spec_master_id(), request, answer),
        0 <= k < 2 * s.vars().len(),
        has_board_id(pre, s.spec_board_id()),
        forall|i: int| 0 <= i < pre.len() ==> #[trigger] pre[i].vars.len() == MAX_VAR_FOR_SLAVE,
        answer matches Ok(SlaveAction::Send(v)) && recv_step(
            pre,
            s.spec_slave_id(),
            v@[k].frame.id,
            v@[k].frame.payload@,
            r,
            post,
        ),
    ensures
        r == Ok::<bool, CanError>(true),
        post[board_pos(pre, s.spec_board_id())].vars[k / 2] is Some,
{
    s.lemma_wf();
    let j = k / 2;
    let var = s.vars()[j];
    let name = parse_u64(var.name)->Some_0;
    assert(var.id == j);
    let v = answer->Ok_0->Send_0;
    if k % 2 == 0 {
        assert(k == 2 * j);
        lemma_info_reply_registers_var(
            pre,
            s.spec_slave_id(),
            s.spec_board_id(),
            var.id,
            name,
            None,
            v@[k].frame.payload@,
            r,
            post,
        );
    } else {
        assert(k == 2 * j + 1);
        lemma_info_reply_registers_var(
            pre,
            s.spec_slave_id(),
            s.spec_board_id(),
            var.id,
            name,
            Some((crate::slave::node::type_code(var.data_type), var.size)),
            v@[k].frame.payload@,
            r,
            post,
        );
    }
}

/// Law: a refresh request reads, at a slave, as a master frame in mode 2
/// that names the board and the variable.
pub proof fn lemma_refresh_request_fields(board_id: u8, var_id: u8)
    requires
        board_id < 16,
        var_id < 16,
    ensures
        field_of(refresh_request_word(board_id, var_id), 0, 4) == 2,
        field_of(refresh_request_word(board_id, var_id), 4, 4) == board_id,
        field_of(refresh_request_word(board_id, var_id), 8, 4) == var_id,
{
    let w = refresh_request_word(board_id, var_id);
    assert(field_of(w, 0, 4) == 2 && field_of(w, 4, 4) == board_id as u64 && field_of(w, 8, 4)
        == var_id as u64) by (bit_vector)
        requires
            w == refresh_request_word(board_id, var_id),
            board_id < 16,
            var_id < 16,
    ;
}

/// Law: `present_slots` lists exactly the filled slots, each once, in
/// increasing slot order (slot 0 included), and `present_vars` lists the
/// records of those slots in the same order.  So `list_vars` reports, and
/// `refresh_value_var_all` requests, every filled slot of a board.
pub proof fn lemma_present_slots(slots: Seq<Option<VarModel>>)
    ensures
        present_slots(slots).len() <= slots.len(),
        present_vars(slots).len() == present_slots(slots).len(),
        forall|k: int|
            0 <= k < present_slots(slots).len() ==> 0 <= #[trigger] present_slots(slots)[k]
                < slots.len() && slots[present_slots(slots)[k]] is Some && present_vars(slots)[k]
                == slots[present_slots(slots)[k]]->Some_0,
        forall|k: int, l: int|
            0 <= k < l < present_slots(slots).len() ==> #[trigger] present_slots(slots)[k]
                < #[trigger] present_slots(slots)[l],
        forall|s: int|
            0 <= s < slots.len() && (#[trigger] slots[s]) is Some ==> exists|k: int|
                0 <= k < present_slots(slots).len() && #[trigger] present_slots(slots)[k] == s,
    decreases slots.len(),
{
    if slots.len() > 0 {
        let pre = slots.drop_last();
        lemma_present_slots(pre);
        let ps0 = present_slots(pre);
        let ps = present_slots(slots);
        assert forall|k: int| 0 <= k < ps0.len() implies ps[k] == ps0[k] && slots[ps0[k]]
            == pre[ps0[k]] && present_vars(slots)[k] == present_vars(pre)[k] by {}
        assert forall|s: int| 0 <= s < slots.len() && (#[trigger] slots[s]) is Some implies exists|
            k: int,
        | 0 <= k < ps.len() && #[trigger] ps[k] == s by {
            if s < slots.len() - 1 {
                assert(pre[s] == slots[s]);
                let k = choose|k: int| 0 <= k < ps0.len() && #[trigger] ps0[k] == s;
                assert(ps[k] == s);
            } else {
                assert(ps[ps.len() - 1] == s);
            }
        }
    }
}

} // verus!
