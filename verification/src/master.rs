//! A master node that keeps its boards and their variables in growable
//! vectors and looks variables up by their id.
//!
//! Like `node`, it does no bus I/O: operations that talk to the slaves
//! return the frames to send.
pub mod node;

use crate::common::bitfield::{field_of, le_bytes, le_word, u32_le_bytes, u64_le_bytes, u64_ne_bytes};
use crate::common::messages::{
    CanError, DpsMasterMex, DpsMasterMexModeM1, DpsMasterMexModeM2, DpsMasterMexModeM3, DpsSlaveMex, DpsSlaveMexMode,
    DpsSlaveMexModeM0, DpsSlaveMexModeM1, DpsSlaveMexModeM2, DpsSlaveMexModeM3,
    DpsSlaveMexValueVarSize, DpsSlaveMexValueVarType,
};
use crate::common::{str_from_utf8, CanFrame, CanMessage, DataGenericType, BOARD_NAME_LENGTH, VAR_NAME_LENGTH};
use crate::master::node::{announced_name, info_request_word, refresh_request_word, var_value_word};
use vstd::prelude::*;
use vstd::set_lib::{lemma_int_range, lemma_len_subset, set_int_range};
use vstd::string::StringSliceAdditionalSpecFns;
use vstd::utf8::valid_utf8;

verus! {

/// What the master knows of one variable.
pub struct VarEntry {
    pub id: u8,
    pub name: Seq<u8>,
    pub value: Seq<u8>,
    pub size: u8,
    pub data_type: DataGenericType,
}

/// What the master knows of one board.
pub struct BoardEntry {
    pub id: u8,
    pub name: Seq<u8>,
    pub vars: Seq<VarEntry>,
}

/// Whether a board with this id is known.
pub open spec fn has_board(boards: Seq<BoardEntry>, id: u8) -> bool {
    exists|i: int| 0 <= i < boards.len() && boards[i].id == id
}

/// The position of the board with this id.
pub open spec fn board_at(boards: Seq<BoardEntry>, id: u8) -> int {
    choose|i: int| 0 <= i < boards.len() && boards[i].id == id
}

/// Whether a variable with this id is known.
pub open spec fn has_var(vars: Seq<VarEntry>, id: u8) -> bool {
    exists|i: int| 0 <= i < vars.len() && vars[i].id == id
}

/// The position of the variable with this id.
pub open spec fn var_at(vars: Seq<VarEntry>, id: u8) -> int {
    choose|i: int| 0 <= i < vars.len() && vars[i].id == id
}

/// `n` zero bytes.
pub open spec fn zeros(n: nat) -> Seq<u8> {
    Seq::new(n, |i: int| 0u8)
}

/// The type a metadata frame's raw type code stands for.
pub open spec fn metadata_type(raw: u8) -> DataGenericType {
    if raw == 1 {
        DataGenericType::Signed
    } else if raw == 2 {
        DataGenericType::Floated
    } else {
        DataGenericType::Unsigned
    }
}

/// The size in bytes a metadata frame's raw size code stands for.
pub open spec fn metadata_size(raw: u8) -> u8 {
    if raw == 1 {
        2
    } else if raw == 2 {
        4
    } else {
        1
    }
}

/// The variables after a name frame: the variable's name is replaced, or
/// a variable with this name, no value, size 0 and unsigned type is added.
pub open spec fn after_name(vars: Seq<VarEntry>, id: u8, name: Seq<u8>) -> Seq<VarEntry> {
    if has_var(vars, id) {
        let i = var_at(vars, id);
        vars.update(i, VarEntry { name, ..vars[i] })
    } else {
        vars.push(
            VarEntry { id, name, value: zeros(4), size: 0, data_type: DataGenericType::Unsigned },
        )
    }
}

/// The variables after a metadata frame: type and size are replaced, or a
/// variable without name and value is added with them.
pub open spec fn after_metadata(vars: Seq<VarEntry>, id: u8, t: DataGenericType, size: u8) -> Seq<
    VarEntry,
> {
    if has_var(vars, id) {
        let i = var_at(vars, id);
        vars.update(i, VarEntry { data_type: t, size, ..vars[i] })
    } else {
        vars.push(
            VarEntry { id, name: zeros(VAR_NAME_LENGTH as nat), value: zeros(4), size, data_type: t },
        )
    }
}

/// The variables after a value frame: the value of a known variable is
/// replaced; an unknown one is not added.
pub open spec fn after_value(vars: Seq<VarEntry>, id: u8, value: Seq<u8>) -> Seq<VarEntry> {
    if has_var(vars, id) {
        let i = var_at(vars, id);
        vars.update(i, VarEntry { value, ..vars[i] })
    } else {
        vars
    }
}

/// No two entries share an id, and every id fits in 4 bits.
pub open spec fn ids_ok(ids: Seq<u8>) -> bool {
    &&& forall|i: int| 0 <= i < ids.len() ==> ids[i] < 16
    &&& forall|i: int, j: int| 0 <= i < ids.len() && 0 <= j < ids.len() && i != j ==> ids[i] != ids[j]
}

/// How the boards `pre` and the answer `r` of `check_mex_recv` relate to the
/// boards `post` after a frame with identifier `mex_id` and payload `p`, on a
/// master listening to `slaves_id`.
pub open spec fn recv_step(
    pre: Seq<BoardEntry>,
    slaves_id: u16,
    mex_id: u16,
    p: Seq<u8>,
    r: Result<bool, CanError>,
    post: Seq<BoardEntry>,
) -> bool {
    let w = le_word(p);
    let mode = field_of(w, 4, 4);
    let b = field_of(w, 0, 4) as u8;
    let id = field_of(w, 8, 4) as u8;
    if p.len() != 8 {
        r == Err::<bool, CanError>(CanError::InvalidPayloadSize) && post == pre
    } else if mex_id != slaves_id {
        r == Ok::<bool, CanError>(false) && post == pre
    } else if mode > 3 {
        r == Err::<bool, CanError>(
            CanError::InvalidMultiplexor { message_id: 650, multiplexor: mode as u16 },
        ) && post == pre
    } else if mode == 0 {
        if has_board(pre, b) {
            r == Ok::<bool, CanError>(false) && post == pre
        } else {
            &&& r == Ok::<bool, CanError>(true)
            &&& post.len() == pre.len() + 1
            &&& post.take(pre.len() as int) == pre
            &&& post.last().id == b
            &&& post.last().vars == Seq::<VarEntry>::empty()
            &&& announced_name(post.last().name, field_of(w, 16, 48))
        }
    } else if !has_board(pre, b) {
        r == Ok::<bool, CanError>(false) && post == pre
    } else {
        let i = board_at(pre, b);
        let board = pre[i];
        let vars = if mode == 1 {
            after_name(board.vars, id, le_bytes(field_of(w, 16, 48)).take(VAR_NAME_LENGTH as int))
        } else if mode == 2 {
            after_metadata(
                board.vars,
                id,
                metadata_type(field_of(w, 12, 2) as u8),
                metadata_size(field_of(w, 14, 2) as u8),
            )
        } else {
            after_value(board.vars, id, le_bytes(field_of(w, 16, 32)).take(4))
        };
        r == Ok::<bool, CanError>(true) && post == pre.update(i, BoardEntry { vars, ..board })
    }
}

/// The ids of the boards, in order.
pub open spec fn board_ids(boards: Seq<BoardEntry>) -> Seq<u8> {
    boards.map_values(|b: BoardEntry| b.id)
}

/// The ids of the variables, in order.
pub open spec fn var_ids(vars: Seq<VarEntry>) -> Seq<u8> {
    vars.map_values(|v: VarEntry| v.id)
}

/// Pigeonhole: distinct 4-bit ids are at most 16.
proof fn lemma_ids_bound(ids: Seq<u8>)
    requires
        ids_ok(ids),
    ensures
        ids.len() <= 16,
{
    let s = ids.map_values(|x: u8| x as int);
    assert(s.no_duplicates());
    s.unique_seq_to_set();
    lemma_int_range(0, 16);
    assert(s.to_set().subset_of(set_int_range(0, 16)));
    lemma_len_subset(s.to_set(), set_int_range(0, 16));
}

/// Adding an entry with a new 4-bit id keeps the ids in order.
proof fn lemma_ids_push(vars: Seq<VarEntry>, e: VarEntry)
    requires
        ids_ok(var_ids(vars)),
        !has_var(vars, e.id),
        e.id < 16,
    ensures
        ids_ok(var_ids(vars.push(e))),
{
    let ids = var_ids(vars.push(e));
    assert(ids =~= var_ids(vars).push(e.id));
    assert forall|a: int, b: int| 0 <= a < ids.len() && 0 <= b < ids.len() && a != b implies ids[a] != ids[b] by {
        if a < vars.len() && b < vars.len() {
            assert(ids[a] == var_ids(vars)[a] && ids[b] == var_ids(vars)[b]);
        } else if a < vars.len() {
            assert(ids[a] == vars[a].id);
        } else {
            assert(ids[b] == vars[b].id);
        }
    }
}

/// A variable as the master records it.
#[derive(Debug, Clone, Copy)]
pub struct VarRecord {
    id: u8,
    name: [u8; VAR_NAME_LENGTH],
    value: [u8; 4],
    size: u8,
    data_type: DataGenericType,
}

impl View for VarRecord {
    type V = VarEntry;

    closed spec fn view(&self) -> VarEntry {
        VarEntry {
            id: self.id,
            name: self.name@,
            value: self.value@,
            size: self.size,
            data_type: self.data_type,
        }
    }
}

impl VarRecord {
    pub fn id(&self) -> (r: u8)
        ensures
            r == self@.id,
    {
        self.id
    }

    pub fn name(&self) -> (r: [u8; VAR_NAME_LENGTH])
        ensures
            r@ == self@.name,
    {
        self.name
    }

    pub fn value(&self) -> (r: [u8; 4])
        ensures
            r@ == self@.value,
    {
        self.value
    }

    pub fn size(&self) -> (r: u8)
        ensures
            r == self@.size,
    {
        self.size
    }

    pub fn data_type(&self) -> (r: DataGenericType)
        ensures
            r == self@.data_type,
    {
        self.data_type
    }
}

#[derive(Debug)]
struct MasterRecord {
    id: u8,
    board_name: [u8; BOARD_NAME_LENGTH],
    vars: Vec<VarRecord>,
}

/// The entries of a list of variable records.
pub open spec fn records_model(vars: Seq<VarRecord>) -> Seq<VarEntry> {
    vars.map_values(|v: VarRecord| v@)
}

impl MasterRecord {
    spec fn model(self) -> BoardEntry {
        BoardEntry { id: self.id, name: self.board_name@, vars: records_model(self.vars@) }
    }
}

/// The position of the variable with this id in a list of records.
fn find_var(vars: &Vec<VarRecord>, var_id: u8) -> (r: Option<usize>)
    requires
        ids_ok(var_ids(records_model(vars@))),
    ensures
        r is Some <==> has_var(records_model(vars@), var_id),
        r matches Some(j) ==> j < vars@.len() && j == var_at(records_model(vars@), var_id),
{
    let ghost m = records_model(vars@);
    let mut j: usize = 0;
    while j < vars.len()
        invariant
            m == records_model(vars@),
            ids_ok(var_ids(m)),
            j <= vars@.len(),
            forall|k: int| 0 <= k < j ==> m[k].id != var_id,
        decreases vars.len() - j,
    {
        if vars[j].id == var_id {
            proof {
                assert(m[j as int].id == var_id);
                let c = var_at(m, var_id);
                assert(0 <= c < m.len() && m[c].id == var_id);
                assert(var_ids(m)[c] == var_ids(m)[j as int]);
            }
            return Some(j);
        }
        j = j + 1;
    }
    None
}

/// The master's boards, and the identifiers of its frames.
#[derive(Debug)]
pub struct DpsMaster {
    master_id: u16,
    slaves_id: u16,
    board_vec: Vec<MasterRecord>,
    objs_count: u8,
}

/// A board as `list_board` reports it.
#[derive(Debug, Clone, Copy)]
pub struct BoardInfo<'a> {
    pub name: &'a str,
    pub id: u8,
}

/// The stored bytes of a variable's value and its type.
#[derive(Debug)]
pub struct VarValue<'a> {
    raw_data: &'a [u8],
    data_type: DataGenericType,
}

impl<'a> View for VarValue<'a> {
    type V = (Seq<u8>, DataGenericType);

    closed spec fn view(&self) -> (Seq<u8>, DataGenericType) {
        (self.raw_data@, self.data_type)
    }
}

impl<'a> VarValue<'a> {
    /// The four stored value bytes, little-endian.
    pub fn raw_data(&self) -> (r: &'a [u8])
        ensures
            r@ == self@.0,
    {
        self.raw_data
    }

    /// The variable's type.
    pub fn data_type(&self) -> (r: DataGenericType)
        ensures
            r == self@.1,
    {
        self.data_type
    }
}

impl DpsMaster {
    /// The boards in the order they were discovered.
    pub closed spec fn boards(&self) -> Seq<BoardEntry> {
        self.board_vec@.map_values(|r: MasterRecord| r.model())
    }

    pub closed spec fn spec_master_id(&self) -> u16 {
        self.master_id
    }

    pub closed spec fn spec_slaves_id(&self) -> u16 {
        self.slaves_id
    }

    /// The number of boards discovered so far.
    pub closed spec fn spec_objs_count(&self) -> u8 {
        self.objs_count
    }

    /// Internal consistency: the count matches the boards, board ids are
    /// distinct 4-bit values, and so are the variable ids of each board.
    pub closed spec fn wf(&self) -> bool {
        &&& self.objs_count as int == self.board_vec@.len()
        &&& ids_ok(board_ids(self.boards()))
        &&& forall|i: int| 0 <= i < self.boards().len() ==> ids_ok(#[trigger] var_ids(self.boards()[i].vars))
    }

    pub fn new(master_id: u16, slaves_id: u16) -> (r: Self)
        ensures
            r.wf(),
            r.boards() == Seq::<BoardEntry>::empty(),
            r.spec_master_id() == master_id,
            r.spec_slaves_id() == slaves_id,
    {
        let r = Self { master_id, slaves_id, board_vec: Vec::new(), objs_count: 0 };
        assert(r.boards() =~= Seq::<BoardEntry>::empty());
        assert(board_ids(r.boards()) =~= Seq::<u8>::empty());
        r
    }

    /// The position of the board with this id.
    fn _find_board(&self, board_id: u8) -> (r: Option<usize>)
        requires
            self.wf(),
        ensures
            r is Some <==> has_board(self.boards(), board_id),
            r matches Some(i) ==> i < self.board_vec@.len() && i == board_at(self.boards(), board_id),
    {
        let mut i: usize = 0;
        while i < self.board_vec.len()
            invariant
                self.wf(),
                i <= self.board_vec@.len(),
                forall|k: int| 0 <= k < i ==> self.boards()[k].id != board_id,
            decreases self.board_vec.len() - i,
        {
            if self.board_vec[i].id == board_id {
                proof {
                    let bs = self.boards();
                    assert(bs[i as int].id == board_id);
                    let c = board_at(bs, board_id);
                    assert(0 <= c < bs.len() && bs[c].id == board_id);
                    assert(board_ids(bs)[c] == board_ids(bs)[i as int]);
                }
                return Some(i);
            }
            i = i + 1;
        }
        None
    }

    /// Adds the board that a name announcement comes from, unless a board
    /// with this id is known.
    fn _get_board_name(&mut self, board_id: u8, dps_slave_mex_mode_m0: &DpsSlaveMexModeM0) -> (r:
        Result<bool, CanError>)
        requires
            old(self).wf(),
            board_id < 16,
        ensures
            final(self).wf(),
            final(self).spec_master_id() == old(self).spec_master_id(),
            final(self).spec_slaves_id() == old(self).spec_slaves_id(),
            has_board(old(self).boards(), board_id) ==> r == Ok::<bool, CanError>(false)
                && final(self).boards() == old(self).boards(),
            !has_board(old(self).boards(), board_id) ==> {
                let pre = old(self).boards();
                let post = final(self).boards();
                &&& r == Ok::<bool, CanError>(true)
                &&& post.len() == pre.len() + 1
                &&& post.take(pre.len() as int) == pre
                &&& post.last().id == board_id
                &&& post.last().vars == Seq::<VarEntry>::empty()
                &&& announced_name(post.last().name, dps_slave_mex_mode_m0.spec_board_name())
            },
    {
        let arr = u64_ne_bytes(dps_slave_mex_mode_m0.board_name());
        if self._find_board(board_id).is_some() {
            return Ok(false);
        }
        let ghost pre = self.boards();
        proof {
            let ids = board_ids(pre).push(board_id);
            assert forall|i: int, j: int|
                0 <= i < ids.len() && 0 <= j < ids.len() && i != j implies ids[i] != ids[j] by {
                if i < pre.len() && j < pre.len() {
                    assert(ids[i] == board_ids(pre)[i] && ids[j] == board_ids(pre)[j]);
                } else if i < pre.len() {
                    assert(ids[i] == pre[i].id);
                } else {
                    assert(ids[j] == pre[j].id);
                }
            }
            lemma_ids_bound(ids);
        }
        let name: [u8; BOARD_NAME_LENGTH] = [arr[0], arr[1], arr[2], arr[3], arr[4], arr[5], arr[6]];
        let new_board = MasterRecord { id: board_id, board_name: name, vars: Vec::new() };
        self.objs_count = self.objs_count + 1;
        self.board_vec.push(new_board);
        proof {
            let post = self.boards();
            assert(name@ =~= arr@.take(BOARD_NAME_LENGTH as int));
            assert(le_bytes(dps_slave_mex_mode_m0.spec_board_name()).len() == 8);
            assert(records_model(new_board.vars@) =~= Seq::<VarEntry>::empty());
            assert(post.take(pre.len() as int) =~= pre);
            assert(board_ids(post) =~= board_ids(pre).push(board_id));
            assert forall|i: int| 0 <= i < post.len() implies ids_ok(#[trigger] var_ids(post[i].vars)) by {
                if i < pre.len() {
                    assert(post[i] == pre[i]);
                } else {
                    assert(var_ids(post[i].vars) =~= Seq::<u8>::empty());
                }
            }
        }
        Ok(true)
    }

    fn _get_var_metadata(&mut self, board_id: u8, dps_slave_mex_mode_m2: &DpsSlaveMexModeM2) -> (r:
        Result<bool, CanError>)
        requires
            old(self).wf(),
        ensures
            final(self).wf(),
            final(self).spec_master_id() == old(self).spec_master_id(),
            final(self).spec_slaves_id() == old(self).spec_slaves_id(),
            r == Ok::<bool, CanError>(has_board(old(self).boards(), board_id)),
            !has_board(old(self).boards(), board_id) ==> final(self).boards() == old(self).boards(),
            has_board(old(self).boards(), board_id) ==> {
                let pre = old(self).boards();
                let i = board_at(pre, board_id);
                final(self).boards() == pre.update(
                    i,
                    BoardEntry {
                        vars: after_metadata(
                            pre[i].vars,
                            dps_slave_mex_mode_m2.spec_value_var_id(),
                            metadata_type(dps_slave_mex_mode_m2.spec_value_var_type()),
                            metadata_size(dps_slave_mex_mode_m2.spec_value_var_size()),
                        ),
                        ..pre[i]
                    },
                )
            },
    {
        let var_type = match dps_slave_mex_mode_m2.value_var_type() {
            DpsSlaveMexValueVarType::Unsigned => DataGenericType::Unsigned,
            DpsSlaveMexValueVarType::Signed => DataGenericType::Signed,
            DpsSlaveMexValueVarType::Floated => DataGenericType::Floated,
            DpsSlaveMexValueVarType::_Other(_) => DataGenericType::Unsigned,
        };
        let var_size: u8 = match dps_slave_mex_mode_m2.value_var_size() {
            DpsSlaveMexValueVarSize::X8Bit => 1,
            DpsSlaveMexValueVarSize::X16Bit => 2,
            DpsSlaveMexValueVarSize::X32Bit => 4,
            DpsSlaveMexValueVarSize::_Other(_) => 1,
        };
        let var_id = dps_slave_mex_mode_m2.value_var_id();
        proof {
            let w = dps_slave_mex_mode_m2@;
            crate::common::bitfield::lemma_signal_bounds(w);
        }
        let ghost pre = self.boards();
        match self._find_board(board_id) {
            Some(i) => {
                let ghost old_vars = records_model(self.board_vec@[i as int].vars@);
                assert(old_vars == pre[i as int].vars);
                let ghost new_vars = after_metadata(old_vars, var_id, var_type, var_size);
                match find_var(&self.board_vec[i].vars, var_id) {
                    Some(j) => {
                        self.board_vec[i].vars[j].data_type = var_type;
                        self.board_vec[i].vars[j].size = var_size;
                        proof {
                            let c = var_at(old_vars, var_id);
                            assert(records_model(self.board_vec@[i as int].vars@) =~= old_vars.update(
                                c,
                                VarEntry { data_type: var_type, size: var_size, ..old_vars[c] },
                            ));
                            assert(var_ids(new_vars) =~= var_ids(old_vars));
                        }
                    },
                    None => {
                        let rec = VarRecord {
                            id: var_id,
                            name: [0u8; VAR_NAME_LENGTH],
                            value: [0u8; 4],
                            data_type: var_type,
                            size: var_size,
                        };
                        self.board_vec[i].vars.push(rec);
                        proof {
                            assert(rec@.value =~= zeros(4));
                            assert(rec@.name =~= zeros(VAR_NAME_LENGTH as nat));
                            assert(records_model(self.board_vec@[i as int].vars@) =~= old_vars.push(rec@));
                            lemma_ids_push(old_vars, rec@);
                        }
                    },
                }
                proof {
                    assert(self.boards() =~= pre.update(i as int, BoardEntry { vars: new_vars, ..pre[i as int] }));
                    Self::lemma_board_vars_replaced(pre, self.boards(), i as int, new_vars);
                }
                Ok(true)
            },
            None => Ok(false),
        }
    }

    fn _get_var_value(&mut self, board_id: u8, dps_slave_mex_mode_m3: &DpsSlaveMexModeM3) -> (r:
        Result<bool, CanError>)
        requires
            old(self).wf(),
        ensures
            final(self).wf(),
            final(self).spec_master_id() == old(self).spec_master_id(),
            final(self).spec_slaves_id() == old(self).spec_slaves_id(),
            r == Ok::<bool, CanError>(has_board(old(self).boards(), board_id)),
            !has_board(old(self).boards(), board_id) ==> final(self).boards() == old(self).boards(),
            has_board(old(self).boards(), board_id) ==> {
                let pre = old(self).boards();
                let i = board_at(pre, board_id);
                final(self).boards() == pre.update(
                    i,
                    BoardEntry {
                        vars: after_value(
                            pre[i].vars,
                            dps_slave_mex_mode_m3.spec_var_id(),
                            le_bytes(dps_slave_mex_mode_m3.spec_value() as u64).take(4),
                        ),
                        ..pre[i]
                    },
                )
            },
    {
        let var_id = dps_slave_mex_mode_m3.var_id();
        let ghost pre = self.boards();
        match self._find_board(board_id) {
            None => Ok(false),
            Some(i) => {
                let ghost old_vars = records_model(self.board_vec@[i as int].vars@);
                assert(old_vars == pre[i as int].vars);
                let ghost value_seq = le_bytes(dps_slave_mex_mode_m3.spec_value() as u64).take(4);
                let ghost new_vars = after_value(old_vars, var_id, value_seq);
                match find_var(&self.board_vec[i].vars, var_id) {
                    None => {
                        proof {
                            assert(self.boards() =~= pre.update(i as int, BoardEntry { vars: new_vars, ..pre[i as int] }));
                        }
                    },
                    Some(j) => {
                        let arr = u32_le_bytes(dps_slave_mex_mode_m3.value());
                        self.board_vec[i].vars[j].value = arr;
                        proof {
                            let c = var_at(old_vars, var_id);
                            assert(records_model(self.board_vec@[i as int].vars@) =~= old_vars.update(
                                c,
                                VarEntry { value: value_seq, ..old_vars[c] },
                            ));
                            assert(self.boards() =~= pre.update(i as int, BoardEntry { vars: new_vars, ..pre[i as int] }));
                        }
                    },
                }
                proof {
                    assert(var_ids(new_vars) =~= var_ids(old_vars));
                    Self::lemma_board_vars_replaced(pre, self.boards(), i as int, new_vars);
                }
                Ok(true)
            },
        }
    }

    /// Handles a frame received from the bus.
    ///
    /// A frame from the slaves' identifier is decoded by its mode: a name
    /// announcement (mode 0) adds its board unless the board is known
    /// (`Ok(false)` then); a variable name (1), metadata (2) or value (3)
    /// frame for a known board records what it carries for the variable it
    /// names and answers `Ok(true)` (a name or metadata frame adds the
    /// variable when it is unknown; a value frame for an unknown variable
    /// changes nothing); such a frame for an unknown board answers
    /// `Ok(false)`.  A frame from another identifier is ignored
    /// (`Ok(false)`).  A payload that is not 8 bytes long, or a mode above
    /// 3, is an error.
    pub fn check_mex_recv(&mut self, mex: &CanMessage) -> (r: Result<bool, CanError>)
        requires
            old(self).wf(),
        ensures
            final(self).wf(),
            final(self).spec_master_id() == old(self).spec_master_id(),
            final(self).spec_slaves_id() == old(self).spec_slaves_id(),
            recv_step(
                old(self).boards(),
                old(self).spec_slaves_id(),
                mex.id,
                mex.payload@,
                r,
                final(self).boards(),
            ),
    {
        let mut slave_mex = DpsSlaveMex::try_from(mex.payload)?;
        if mex.id != self.slaves_id {
            return Ok(false);
        }
        let ghost w = slave_mex@;
        proof {
            crate::common::bitfield::lemma_signal_bounds(w);
        }
        let board_id = slave_mex.board_id();
        match slave_mex.mode()? {
            DpsSlaveMexMode::M0(mode_mex) => self._get_board_name(board_id, &mode_mex),
            DpsSlaveMexMode::M1(mode_mex) => self._get_var_name(board_id, &mode_mex),
            DpsSlaveMexMode::M2(mode_mex) => self._get_var_metadata(board_id, &mode_mex),
            DpsSlaveMexMode::M3(mode_mex) => self._get_var_value(board_id, &mode_mex),
        }
    }

    /// The frame that opens a connection: a master frame in mode 0.
    pub fn new_connection(&self) -> (r: Result<CanFrame, CanError>)
        ensures
            r matches Ok(f) && f.id == self.spec_master_id() && f.word() == 0,
    {
        let master_mex = DpsMasterMex::new(0)?;
        proof {
            crate::common::bitfield::lemma_signal_bounds(0);
        }
        Ok(CanFrame { id: self.master_id, payload: *master_mex.raw() })
    }

    /// The information requests (mode 1) for every known board, in the
    /// order the boards were discovered.  The driver sends each of them with
    /// `next_try_after_send`, whatever the outcome of the others.
    pub fn request_info(&self) -> (r: Result<Vec<CanFrame>, CanError>)
        requires
            self.wf(),
        ensures
            r matches Ok(frames) && frames@.len() == self.boards().len() && forall|k: int|
                0 <= k < frames@.len() ==> (#[trigger] frames@[k]).id == self.spec_master_id()
                    && frames@[k].word() == info_request_word(self.boards()[k].id),
    {
        let mut frames: Vec<CanFrame> = Vec::new();
        let mut i: usize = 0;
        while i < self.board_vec.len()
            invariant
                self.wf(),
                i <= self.board_vec@.len(),
                frames@.len() == i,
                forall|k: int|
                    0 <= k < i ==> (#[trigger] frames@[k]).id == self.master_id && frames@[k].word()
                        == info_request_word(self.boards()[k].id),
            decreases self.board_vec.len() - i,
        {
            let board_id = self.board_vec[i].id;
            let mut master_mex = DpsMasterMex::new(1)?;
            let mut master_mode_1 = DpsMasterMexModeM1::new();
            master_mode_1.set_var_name_board_id(board_id)?;
            master_mex.set_m1(master_mode_1)?;
            proof {
                let b = board_id;
                assert(crate::common::bitfield::with_field(
                    crate::common::bitfield::with_field(0, 0, 4, 1)
                        | crate::common::bitfield::with_field(0, 4, 4, b as u64),
                    0,
                    4,
                    1,
                ) == info_request_word(b)) by (bit_vector);
            }
            frames.push(CanFrame { id: self.master_id, payload: *master_mex.raw() });
            i = i + 1;
        }
        Ok(frames)
    }

    /// Whether every known board name is valid UTF-8, which `list_board`
    /// needs.
    pub fn names_are_utf8(&self) -> (r: bool)
        requires
            self.wf(),
        ensures
            r == forall|i: int| 0 <= i < self.boards().len() ==> valid_utf8(#[trigger] self.boards()[i].name),
    {
        let mut i: usize = 0;
        while i < self.board_vec.len()
            invariant
                self.wf(),
                i <= self.board_vec@.len(),
                forall|j: int| 0 <= j < i ==> valid_utf8(#[trigger] self.boards()[j].name),
            decreases self.board_vec.len() - i,
        {
            if str_from_utf8(self.board_vec[i].board_name.as_slice()).is_none() {
                assert(!valid_utf8(self.boards()[i as int].name));
                return false;
            }
            i = i + 1;
        }
        true
    }

    /// The known boards, in the order they were discovered.  Every board
    /// name must be valid UTF-8.
    pub fn list_board(&self) -> (r: Vec<BoardInfo<'_>>)
        requires
            self.wf(),
            forall|i: int| 0 <= i < self.boards().len() ==> valid_utf8(#[trigger] self.boards()[i].name),
        ensures
            r@.len() == self.boards().len(),
            forall|i: int|
                0 <= i < r@.len() ==> (#[trigger] r@[i]).id == self.boards()[i].id && r@[i].name.spec_bytes()
                    == self.boards()[i].name,
    {
        let mut vec_board_res: Vec<BoardInfo<'_>> = Vec::with_capacity(self.board_vec.len());
        let mut i: usize = 0;
        while i < self.board_vec.len()
            invariant
                self.wf(),
                i <= self.board_vec@.len(),
                forall|j: int| 0 <= j < self.boards().len() ==> valid_utf8(#[trigger] self.boards()[j].name),
                vec_board_res@.len() == i,
                forall|j: int|
                    0 <= j < i ==> (#[trigger] vec_board_res@[j]).id == self.boards()[j].id
                        && vec_board_res@[j].name.spec_bytes() == self.boards()[j].name,
            decreases self.board_vec.len() - i,
        {
            let board = &self.board_vec[i];
            assert(valid_utf8(self.boards()[i as int].name));
            match str_from_utf8(board.board_name.as_slice()) {
                Some(name) => {
                    vec_board_res.push(BoardInfo { name, id: board.id });
                },
                None => {
                    proof {
                        assert(false);
                    }
                    return vec_board_res;
                },
            }
            i = i + 1;
        }
        vec_board_res
    }

    /// Copies of the variables of a board, in the order they were added;
    /// `None` for an unknown board.
    pub fn list_vars(&self, board_id: u8) -> (r: Option<Vec<VarRecord>>)
        requires
            self.wf(),
        ensures
            r is Some <==> has_board(self.boards(), board_id),
            r matches Some(v) ==> records_model(v@) == self.boards()[board_at(self.boards(), board_id)].vars,
    {
        let i = self._find_board(board_id)?;
        let vars = &self.board_vec[i].vars;
        let mut vec_res: Vec<VarRecord> = Vec::with_capacity(vars.len());
        let mut j: usize = 0;
        while j < vars.len()
            invariant
                j <= vars@.len(),
                vec_res@ == vars@.take(j as int),
            decreases vars.len() - j,
        {
            vec_res.push(vars[j]);
            j = j + 1;
            assert(vec_res@ =~= vars@.take(j as int));
        }
        assert(vars@.take(vars@.len() as int) =~= vars@);
        Some(vec_res)
    }

    /// A refresh request (mode 2) that names board `board_id` and variable
    /// `var_id`; a slave answers it with the variable's value.
    fn _refresh_request_checked(&self, board_id: u8, var_id: u8) -> (r: Result<CanFrame, CanError>)
        ensures
            r matches Ok(f) && f.id == self.spec_master_id() && f.word() == refresh_request_word(
                board_id,
                var_id,
            ),
    {
        let master_mex = DpsMasterMex::new(2).ok();
        if master_mex.is_none() {
            return Err(
                CanError::InvalidMultiplexor { message_id: self.master_id as u32, multiplexor: 2 },
            );
        }
        let mut master_mex = master_mex.unwrap();
        let mut master_mex_mode_2 = DpsMasterMexModeM2::new();
        master_mex_mode_2.set_var_refresh_board_id(board_id)?;
        master_mex_mode_2.set_var_refresh_var_id(var_id)?;
        master_mex.set_m2(master_mex_mode_2)?;
        proof {
            let b = board_id;
            let v = var_id;
            assert(crate::common::bitfield::with_field(
                crate::common::bitfield::with_field(0, 0, 4, 2) | crate::common::bitfield::with_field(crate::common::bitfield::with_field(0, 4, 4, b as u64), 8, 4, v as u64),
                0,
                4,
                2,
            ) == refresh_request_word(b, v)) by (bit_vector);
        }
        Ok(CanFrame { id: self.master_id, payload: *master_mex.raw() })
    }

    /// The refresh request for one variable: a refresh request frame
    /// (mode 2) for the board and the variable; `None` when
    /// the board or the variable is unknown.  The driver sends it with
    /// `next_try_checked` and reports `Ok(())` whatever the outcome.
    pub fn refresh_value_var(&self, board_id: u8, var_id: u8) -> (r: Result<Option<CanFrame>, CanError>)
        requires
            self.wf(),
        ensures
            r matches Ok(o) && (o is Some <==> has_board(self.boards(), board_id) && has_var(
                self.boards()[board_at(self.boards(), board_id)].vars,
                var_id,
            )) && (o matches Some(f) ==> f.id == self.spec_master_id() && f.word()
                == refresh_request_word(board_id, var_id)),
    {
        let board = self._find_board(board_id);
        if board.is_none() {
            return Ok(None);
        }
        let i = board.unwrap();
        assert(self.board_vec@[i as int].model() == self.boards()[i as int]);
        assert(ids_ok(var_ids(self.boards()[i as int].vars)));
        let var = find_var(&self.board_vec[i].vars, var_id);
        if var.is_none() {
            return Ok(None);
        }
        let j = var.unwrap();
        let frame = self._refresh_request_checked(self.board_vec[i].id, self.board_vec[i].vars[j].id)?;
        proof {
            let m = records_model(self.board_vec@[i as int].vars@);
            assert(m[j as int].id == var_id);
        }
        Ok(Some(frame))
    }

    /// The refresh requests for every variable of a board, in the order the
    /// variables were added: one refresh request frame (mode 2) each.  None for an unknown board.  The driver sends each with
    /// `next_try_checked`.
    pub fn refresh_value_var_all(&self, board_id: u8) -> (r: Result<Vec<CanFrame>, CanError>)
        requires
            self.wf(),
        ensures
            r matches Ok(frames) && (!has_board(self.boards(), board_id) ==> frames@.len() == 0)
                && (has_board(self.boards(), board_id) ==> {
                let vars = self.boards()[board_at(self.boards(), board_id)].vars;
                &&& frames@.len() == vars.len()
                &&& forall|k: int|
                    0 <= k < frames@.len() ==> (#[trigger] frames@[k]).id == self.spec_master_id()
                        && frames@[k].word() == refresh_request_word(board_id, vars[k].id)
            }),
    {
        let mut frames: Vec<CanFrame> = Vec::new();
        let board = self._find_board(board_id);
        if board.is_none() {
            return Ok(frames);
        }
        let i = board.unwrap();
        let ghost m = records_model(self.board_vec@[i as int].vars@);
        assert(self.board_vec@[i as int].model() == self.boards()[i as int]);
        let bid = self.board_vec[i].id;
        let mut j: usize = 0;
        while j < self.board_vec[i].vars.len()
            invariant
                i < self.board_vec@.len(),
                m == records_model(self.board_vec@[i as int].vars@),
                bid == board_id,
                j <= m.len(),
                frames@.len() == j,
                forall|k: int|
                    0 <= k < j ==> (#[trigger] frames@[k]).id == self.master_id && frames@[k].word()
                        == refresh_request_word(board_id, m[k].id),
            decreases m.len() - j,
        {
            let vid = self.board_vec[i].vars[j].id;
            match self._refresh_request_checked(bid, vid) {
                Ok(frame) => {
                    frames.push(frame);
                },
                Err(_) => {
                    proof {
                        assert(false);
                    }
                },
            }
            j = j + 1;
        }
        Ok(frames)
    }

    /// The stored value bytes and the type of a variable; `None` when the
    /// board or the variable is unknown.
    pub fn get_value_var(&self, board_id: u8, var_id: u8) -> (r: Option<VarValue<'_>>)
        requires
            self.wf(),
        ensures
            r is Some <==> has_board(self.boards(), board_id) && has_var(
                self.boards()[board_at(self.boards(), board_id)].vars,
                var_id,
            ),
            r matches Some(vv) ==> {
                let vars = self.boards()[board_at(self.boards(), board_id)].vars;
                let var = vars[var_at(vars, var_id)];
                vv@ == (var.value, var.data_type)
            },
    {
        let i = self._find_board(board_id)?;
        assert(self.board_vec@[i as int].model() == self.boards()[i as int]);
        let j = find_var(&self.board_vec[i].vars, var_id)?;
        let var = &self.board_vec[i].vars[j];
        proof {
            let m = records_model(self.board_vec@[i as int].vars@);
            assert(m[j as int] == self.board_vec@[i as int].vars@[j as int]@);
        }
        Some(VarValue { raw_data: var.value.as_slice(), data_type: var.data_type })
    }

    /// The update of a remote variable: a "variable value" frame (mode 3)
    /// for the board and the variable carrying `data`; `None` when the board
    /// or the variable is unknown.  The driver sends it with
    /// `next_try_after_send` and answers `remote_update_result` of the final
    /// count.
    pub fn update_remote_var(&self, board_id: u8, var_id: u8, data: u32) -> (r: Result<
        Option<CanFrame>,
        CanError,
    >)
        requires
            self.wf(),
        ensures
            r matches Ok(o) && (o is Some <==> has_board(self.boards(), board_id) && has_var(
                self.boards()[board_at(self.boards(), board_id)].vars,
                var_id,
            )) && (o matches Some(f) ==> f.id == self.spec_master_id() && f.word()
                == var_value_word(board_id, var_id, data)),
    {
        let board = self._find_board(board_id);
        if board.is_none() {
            return Ok(None);
        }
        let i = board.unwrap();
        assert(self.board_vec@[i as int].model() == self.boards()[i as int]);
        assert(ids_ok(var_ids(self.boards()[i as int].vars)));
        let var = find_var(&self.board_vec[i].vars, var_id);
        if var.is_none() {
            return Ok(None);
        }
        let mut master_mex = DpsMasterMex::new(3)?;
        let mut master_mex_mode_3 = DpsMasterMexModeM3::new();
        master_mex_mode_3.set_var_value_board_id(board_id)?;
        master_mex_mode_3.set_var_value_var_id(var_id)?;
        master_mex_mode_3.set_value(data)?;
        master_mex.set_m3(master_mex_mode_3)?;
        proof {
            let b = board_id;
            let v = var_id;
            let x = data;
            assert(crate::common::bitfield::with_field(
                crate::common::bitfield::with_field(0, 0, 4, 3)
                    | crate::common::bitfield::with_field(
                    crate::common::bitfield::with_field(
                        crate::common::bitfield::with_field(0, 4, 4, b as u64),
                        8,
                        4,
                        v as u64,
                    ),
                    16,
                    32,
                    x as u64,
                ),
                0,
                4,
                3,
            ) == var_value_word(b, v, x)) by (bit_vector);
        }
        Ok(Some(CanFrame { id: self.master_id, payload: *master_mex.raw() }))
    }

    /// What a remote update answers after its frame was sent with
    /// `next_try_after_send` and the loop ended with `tries` failures
    /// counted.
    pub fn remote_update_result(tries: u8) -> (r: Result<(), CanError>)
        ensures
            r == (if tries >= crate::common::MAX_SEND_TRIES {
                Err::<(), CanError>(CanError::InvalidPayloadSize)
            } else {
                Ok::<(), CanError>(())
            }),
    {
        if tries >= crate::common::MAX_SEND_TRIES {
            Err(CanError::InvalidPayloadSize)
        } else {
            Ok(())
        }
    }

    /// Replaces the variable list of board `i` by one whose entries are
    /// `vars`, keeping every other board.
    proof fn lemma_board_vars_replaced(pre: Seq<BoardEntry>, post: Seq<BoardEntry>, i: int, vars: Seq<VarEntry>)
        requires
            0 <= i < pre.len(),
            post == pre.update(i, BoardEntry { vars, ..pre[i] }),
            ids_ok(board_ids(pre)),
            forall|k: int| 0 <= k < pre.len() ==> ids_ok(#[trigger] var_ids(pre[k].vars)),
            ids_ok(var_ids(vars)),
        ensures
            ids_ok(board_ids(post)),
            forall|k: int| 0 <= k < post.len() ==> ids_ok(#[trigger] var_ids(post[k].vars)),
    {
        assert(board_ids(post) =~= board_ids(pre));
        assert forall|k: int| 0 <= k < post.len() implies ids_ok(#[trigger] var_ids(post[k].vars)) by {
            if k != i {
                assert(post[k] == pre[k]);
            }
        }
    }

    fn _get_var_name(&mut self, board_id: u8, dps_slave_mex_mode_m1: &DpsSlaveMexModeM1) -> (r:
        Result<bool, CanError>)
        requires
            old(self).wf(),
        ensures
            final(self).wf(),
            final(self).spec_master_id() == old(self).spec_master_id(),
            final(self).spec_slaves_id() == old(self).spec_slaves_id(),
            r == Ok::<bool, CanError>(has_board(old(self).boards(), board_id)),
            !has_board(old(self).boards(), board_id) ==> final(self).boards() == old(self).boards(),
            has_board(old(self).boards(), board_id) ==> {
                let pre = old(self).boards();
                let i = board_at(pre, board_id);
                final(self).boards() == pre.update(
                    i,
                    BoardEntry {
                        vars: after_name(
                            pre[i].vars,
                            dps_slave_mex_mode_m1.spec_info_var_id(),
                            le_bytes(dps_slave_mex_mode_m1.spec_var_name()).take(VAR_NAME_LENGTH as int),
                        ),
                        ..pre[i]
                    },
                )
            },
    {
        let var_id = dps_slave_mex_mode_m1.info_var_id();
        let var_name_arr = u64_le_bytes(dps_slave_mex_mode_m1.var_name());
        let name: [u8; VAR_NAME_LENGTH] = [
            var_name_arr[0],
            var_name_arr[1],
            var_name_arr[2],
            var_name_arr[3],
            var_name_arr[4],
            var_name_arr[5],
        ];
        let ghost name_seq = le_bytes(dps_slave_mex_mode_m1.spec_var_name()).take(VAR_NAME_LENGTH as int);
        assert(name@ =~= name_seq);
        proof {
            let w = dps_slave_mex_mode_m1@;
            crate::common::bitfield::lemma_signal_bounds(w);
        }
        let ghost pre = self.boards();
        match self._find_board(board_id) {
            Some(i) => {
                let ghost old_vars = records_model(self.board_vec@[i as int].vars@);
                assert(old_vars == pre[i as int].vars);
                let found = find_var(&self.board_vec[i].vars, var_id);
                let ghost new_vars = after_name(old_vars, var_id, name_seq);
                match found {
                    None => {
                        let rec = VarRecord {
                            id: var_id,
                            name,
                            value: [0u8; 4],
                            data_type: DataGenericType::Unsigned,
                            size: 0,
                        };
                        self.board_vec[i].vars.push(rec);
                        proof {
                            assert(rec@.value =~= zeros(4));
                            assert(rec@ == VarEntry {
                                id: var_id,
                                name: name_seq,
                                value: zeros(4),
                                size: 0,
                                data_type: DataGenericType::Unsigned,
                            });
                            assert(records_model(self.board_vec@[i as int].vars@) =~= old_vars.push(rec@));
                            lemma_ids_push(old_vars, rec@);
                        }
                    },
                    Some(j) => {
                        self.board_vec[i].vars[j].name = name;
                        proof {
                            let c = var_at(old_vars, var_id);
                            assert(records_model(self.board_vec@[i as int].vars@) =~= old_vars.update(
                                c,
                                VarEntry { name: name_seq, ..old_vars[c] },
                            ));
                            assert(var_ids(new_vars) =~= var_ids(old_vars));
                        }
                    },
                }
                proof {
                    assert(self.boards() =~= pre.update(i as int, BoardEntry { vars: new_vars, ..pre[i as int] }));
                    Self::lemma_board_vars_replaced(pre, self.boards(), i as int, new_vars);
                }
                Ok(true)
            },
            None => Ok(false),
        }
    }
}

/// The position of the entry with this id is the only one with it.
proof fn lemma_unique_pos(ids: Seq<u8>, i: int, c: int)
    requires
        ids_ok(ids),
        0 <= i < ids.len(),
        0 <= c < ids.len(),
        ids[c] == ids[i],
    ensures
        c == i,
{
}

/// Law: a name, metadata or value frame (modes 1 to 3) for a known
/// variable of a known board is what the master then reports of that
/// variable.  Afterwards the variable holds the frame's name (mode 1), its
/// type and size (mode 2) or its four value bytes (mode 3), and everything
/// else of the variable stays.
pub proof fn lemma_var_frame_read_back(
    pre: Seq<BoardEntry>,
    slaves_id: u16,
    p: Seq<u8>,
    r: Result<bool, CanError>,
    post: Seq<BoardEntry>,
)
    requires
        p.len() == 8,
        1 <= field_of(le_word(p), 4, 4) <= 3,
        has_board(pre, field_of(le_word(p), 0, 4) as u8),
        has_var(
            pre[board_at(pre, field_of(le_word(p), 0, 4) as u8)].vars,
            field_of(le_word(p), 8, 4) as u8,
        ),
        ids_ok(board_ids(pre)),
        forall|k: int| 0 <= k < pre.len() ==> ids_ok(#[trigger] var_ids(pre[k].vars)),
        recv_step(pre, slaves_id, slaves_id, p, r, post),
    ensures
        ({
            let w = le_word(p);
            let mode = field_of(w, 4, 4);
            let b = field_of(w, 0, 4) as u8;
            let id = field_of(w, 8, 4) as u8;
            let old_vars = pre[board_at(pre, b)].vars;
            let old_var = old_vars[var_at(old_vars, id)];
            let vars = post[board_at(post, b)].vars;
            let var = vars[var_at(vars, id)];
            &&& r == Ok::<bool, CanError>(true)
            &&& has_board(post, b)
            &&& has_var(vars, id)
            &&& mode == 1 ==> var == VarEntry {
                name: le_bytes(field_of(w, 16, 48)).take(VAR_NAME_LENGTH as int),
                ..old_var
            }
            &&& mode == 2 ==> var == VarEntry {
                data_type: metadata_type(field_of(w, 12, 2) as u8),
                size: metadata_size(field_of(w, 14, 2) as u8),
                ..old_var
            }
            &&& mode == 3 ==> var == VarEntry {
                value: le_bytes(field_of(w, 16, 32)).take(4),
                ..old_var
            }
        }),
{
    let w = le_word(p);
    let b = field_of(w, 0, 4) as u8;
    let id = field_of(w, 8, 4) as u8;
    let i = board_at(pre, b);
    let old_vars = pre[i].vars;
    let j = var_at(old_vars, id);
    assert(0 <= i < pre.len() && pre[i].id == b);
    assert(0 <= j < old_vars.len() && old_vars[j].id == id);
    assert(post.len() == pre.len() && post[i].id == b);
    assert(has_board(post, b));
    let c = board_at(post, b);
    assert(board_ids(post) =~= board_ids(pre));
    assert(board_ids(pre)[c] == board_ids(pre)[i]);
    lemma_unique_pos(board_ids(pre), i, c);
    let vars = post[i].vars;
    assert(ids_ok(var_ids(old_vars)));
    assert(vars.len() == old_vars.len() && vars[j].id == id);
    assert(has_var(vars, id));
    let d = var_at(vars, id);
    assert(var_ids(vars) =~= var_ids(old_vars));
    assert(var_ids(old_vars)[d] == var_ids(old_vars)[j]);
    lemma_unique_pos(var_ids(old_vars), j, d);
}

/// Law: a received frame never forgets a board or a variable: every board
/// keeps its position, its id and its name, and every variable of a board
/// stays known under its id.
pub proof fn lemma_recv_keeps_known(
    pre: Seq<BoardEntry>,
    slaves_id: u16,
    mex_id: u16,
    p: Seq<u8>,
    r: Result<bool, CanError>,
    post: Seq<BoardEntry>,
)
    requires
        recv_step(pre, slaves_id, mex_id, p, r, post),
    ensures
        pre.len() <= post.len(),
        forall|i: int|
            0 <= i < pre.len() ==> #[trigger] post[i].id == pre[i].id && post[i].name == pre[i].name,
        forall|i: int, id: u8|
            0 <= i < pre.len() && #[trigger] has_var(pre[i].vars, id) ==> has_var(post[i].vars, id),
{
    let w = le_word(p);
    let b = field_of(w, 0, 4) as u8;
    let mode = field_of(w, 4, 4);
    let id = field_of(w, 8, 4) as u8;
    if p.len() == 8 && mex_id == slaves_id && mode == 0 && !has_board(pre, b) {
        assert forall|i: int| 0 <= i < pre.len() implies #[trigger] post[i] == pre[i] by {
            assert(post.take(pre.len() as int)[i] == post[i]);
        }
    }
    if p.len() == 8 && mex_id == slaves_id && 1 <= mode <= 3 && has_board(pre, b) {
        let k = board_at(pre, b);
        let vars = pre[k].vars;
        assert forall|i: int, x: u8| 0 <= i < pre.len() && #[trigger] has_var(pre[i].vars, x) implies has_var(
            post[i].vars,
            x,
        ) by {
            if i == k {
                let j = choose|j: int| 0 <= j < vars.len() && vars[j].id == x;
                let nv = post[i].vars;
                if has_var(vars, id) {
                    assert(nv.len() == vars.len() && nv[j].id == x);
                } else {
                    assert(nv.len() >= vars.len() && nv[j] == vars[j]);
                }
            }
        }
    }
}

/// The generic type that a metadata frame's type signal announces: the
/// variant the message set gives the code, an undefined code counting as
/// unsigned.
pub open spec fn announced_type(t: DpsSlaveMexValueVarType) -> DataGenericType {
    match t {
        DpsSlaveMexValueVarType::Unsigned => DataGenericType::Unsigned,
        DpsSlaveMexValueVarType::Signed => DataGenericType::Signed,
        DpsSlaveMexValueVarType::Floated => DataGenericType::Floated,
        DpsSlaveMexValueVarType::_Other(_) => DataGenericType::Unsigned,
    }
}

/// The size in bytes that a metadata frame's size signal announces: the
/// width of the variant the message set gives the code, an undefined code
/// counting as one byte.
pub open spec fn announced_size(s: DpsSlaveMexValueVarSize) -> u8 {
    match s {
        DpsSlaveMexValueVarSize::X8Bit => 1,
        DpsSlaveMexValueVarSize::X16Bit => 2,
        DpsSlaveMexValueVarSize::X32Bit => 4,
        DpsSlaveMexValueVarSize::_Other(_) => 1,
    }
}

/// Law: a metadata frame (mode 2) for a known board leaves that board with
/// the variable, known or new, typed and sized as the frame's signals name:
/// type code 0 unsigned, 1 signed, 2 float, 3 unsigned; size code 0 one
/// byte, 1 two bytes, 2 four bytes, 3 one byte.
pub proof fn lemma_metadata_frame_recorded(
    pre: Seq<BoardEntry>,
    slaves_id: u16,
    p: Seq<u8>,
    r: Result<bool, CanError>,
    post: Seq<BoardEntry>,
)
    requires
        p.len() == 8,
        field_of(le_word(p), 4, 4) == 2,
        has_board(pre, field_of(le_word(p), 0, 4) as u8),
        ids_ok(board_ids(pre)),
        forall|k: int| 0 <= k < pre.len() ==> ids_ok(#[trigger] var_ids(pre[k].vars)),
        recv_step(pre, slaves_id, slaves_id, p, r, post),
    ensures
        ({
            let w = le_word(p);
            let b = field_of(w, 0, 4) as u8;
            let id = field_of(w, 8, 4) as u8;
            let vars = post[board_at(post, b)].vars;
            let var = vars[var_at(vars, id)];
            &&& r == Ok::<bool, CanError>(true)
            &&& has_board(post, b)
            &&& has_var(vars, id)
            &&& var.data_type == announced_type(
                DpsSlaveMexValueVarType::from_raw(field_of(w, 12, 2) as u8),
            )
            &&& var.size == announced_size(
                DpsSlaveMexValueVarSize::from_raw(field_of(w, 14, 2) as u8),
            )
            &&& field_of(w, 12, 2) == 0 ==> var.data_type == DataGenericType::Unsigned
            &&& field_of(w, 12, 2) == 1 ==> var.data_type == DataGenericType::Signed
            &&& field_of(w, 12, 2) == 2 ==> var.data_type == DataGenericType::Floated
            &&& field_of(w, 12, 2) == 3 ==> var.data_type == DataGenericType::Unsigned
        }),
{
    let w = le_word(p);
    crate::common::bitfield::lemma_signal_bounds(w);
    let b = field_of(w, 0, 4) as u8;
    let id = field_of(w, 8, 4) as u8;
    let i = board_at(pre, b);
    assert(0 <= i < pre.len() && pre[i].id == b);
    let old_vars = pre[i].vars;
    assert(ids_ok(var_ids(old_vars)));
    if has_var(old_vars, id) {
        lemma_var_frame_read_back(pre, slaves_id, p, r, post);
    } else {
        let e = VarEntry {
            id,
            name: zeros(VAR_NAME_LENGTH as nat),
            value: zeros(4),
            size: metadata_size(field_of(w, 14, 2) as u8),
            data_type: metadata_type(field_of(w, 12, 2) as u8),
        };
        let vars = old_vars.push(e);
        assert(post == pre.update(i, BoardEntry { vars, ..pre[i] }));
        assert(post[i].id == b);
        assert(has_board(post, b));
        let c = board_at(post, b);
        assert(board_ids(post) =~= board_ids(pre));
        assert(board_ids(pre)[c] == board_ids(pre)[i]);
        lemma_unique_pos(board_ids(pre), i, c);
        lemma_ids_push(old_vars, e);
        let j = old_vars.len() as int;
        assert(vars[j].id == id);
        assert(has_var(vars, id));
        let d = var_at(vars, id);
        assert(var_ids(vars)[d] == var_ids(vars)[j]);
        lemma_unique_pos(var_ids(vars), j, d);
    }
}

} // verus!
