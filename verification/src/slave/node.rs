//! The slave node: a board that exposes some of its variables to the master.
//!
//! The node keeps the board's name and ids and a description (name, id,
//! type, size) of each exposed variable.  The variables themselves live with
//! the caller: when a master frame asks the node to change one,
//! `check_can_mex_recv` answers with the slot and the bytes to write, and
//! when it asks for an answer, with the frames to send.  Sending, with the
//! retry decisions of `crate::common`, is the caller's work.
use crate::common::bitfield::{field_of, le_bytes, le_word, low_mask, u32_le_bytes, with_field};
use crate::common::messages::{
    DpsMasterMex, DpsMasterMexMode, DpsMasterMexModeM1, DpsMasterMexModeM2, DpsMasterMexModeM3,
    DpsSlaveMex, DpsSlaveMexModeM0, DpsSlaveMexModeM1, DpsSlaveMexModeM2, DpsSlaveMexModeM3,
};
use crate::common::types::{lemma_update_le_bytes_32, DpsType};
use crate::common::{
    str_from_utf8, CanFrame, CanMessage, DataGenericType, BOARD_NAME_LENGTH, VAR_NAME_LENGTH,
};
use crate::master::node::{
    lemma_refresh_request_fields, lemma_var_value_fields, refresh_request_word, var_value_word,
};
use vstd::prelude::*;
use vstd::string::StringSliceAdditionalSpecFns;
use vstd::utf8::{
    encode_utf8_valid_utf8, is_leading_byte_width_1, valid_utf8, valid_utf8_concat,
    pop_first_scalar,
};

verus! {

/// Number of variables a slave can expose.
pub const MAX_NUM_VARS: usize = 16;

/// The bytes of `s` followed by zeros up to `n` bytes.
pub open spec fn zero_padded(s: Seq<u8>, n: nat) -> Seq<u8> {
    s + Seq::new((n - s.len()) as nat, |i: int| 0u8)
}

/// Whether a byte is an ASCII decimal digit.
pub open spec fn is_digit(b: u8) -> bool {
    48 <= b <= 57
}

/// The number written by a sequence of decimal digits.
pub open spec fn decimal_value(d: Seq<u8>) -> nat
    decreases d.len(),
{
    if d.len() == 0 {
        0
    } else {
        decimal_value(d.drop_last()) * 10 + (d.last() - 48) as nat
    }
}

/// The digits of an unsigned decimal numeral: an optional leading `+` is
/// dropped.
pub open spec fn numeral_digits(s: Seq<u8>) -> Seq<u8> {
    if s.len() > 0 && s[0] == 43 {
        s.drop_first()
    } else {
        s
    }
}

/// The result of parsing `s` as a `u64` the way `str::parse::<u64>` does:
/// an optional `+`, then at least one decimal digit and nothing else, of a
/// value that fits in 64 bits.
pub open spec fn parse_u64(s: Seq<u8>) -> Option<u64> {
    let d = numeral_digits(s);
    if d.len() > 0 && (forall|i: int| 0 <= i < d.len() ==> is_digit(#[trigger] d[i]))
        && decimal_value(d) <= u64::MAX {
        Some(decimal_value(d) as u64)
    } else {
        None
    }
}

proof fn lemma_decimal_prefix_monotone(d: Seq<u8>, i: int)
    requires
        0 <= i <= d.len(),
        forall|k: int| 0 <= k < d.len() ==> is_digit(#[trigger] d[k]),
    ensures
        decimal_value(d.take(i)) <= decimal_value(d),
    decreases d.len() - i,
{
    if i < d.len() {
        lemma_decimal_prefix_monotone(d, i + 1);
        assert(d.take(i + 1).drop_last() =~= d.take(i));
    } else {
        assert(d.take(i) =~= d);
    }
}

proof fn lemma_parse_overflow(d: Seq<u8>, n: int)
    requires
        0 < n <= d.len(),
        forall|k: int| 0 <= k < n ==> is_digit(#[trigger] d[k]),
        decimal_value(d.take(n)) > u64::MAX,
    ensures
        parse_u64_digits(d) is None,
{
    if forall|k: int| 0 <= k < d.len() ==> is_digit(#[trigger] d[k]) {
        lemma_decimal_prefix_monotone(d, n);
    }
}

/// The value of a sequence of decimal digits when it fits in 64 bits.
pub open spec fn parse_u64_digits(d: Seq<u8>) -> Option<u64> {
    if d.len() > 0 && (forall|i: int| 0 <= i < d.len() ==> is_digit(#[trigger] d[i]))
        && decimal_value(d) <= u64::MAX {
        Some(decimal_value(d) as u64)
    } else {
        None
    }
}

/// `str::parse::<u64>` of the given bytes.
pub fn parse_decimal_u64(s: &[u8]) -> (r: Option<u64>)
    ensures
        r == parse_u64(s@),
{
    let mut start: usize = 0;
    if s.len() > 0 && s[0] == 43 {
        start = 1;
    }
    let ghost d = numeral_digits(s@);
    assert(d =~= s@.skip(start as int));
    assert(parse_u64(s@) == parse_u64_digits(d));
    if start >= s.len() {
        return None;
    }
    let mut acc: u64 = 0;
    let mut i: usize = start;
    assert(d.take(0) =~= Seq::<u8>::empty());
    while i < s.len()
        invariant
            start <= i <= s.len(),
            start < s.len(),
            d == s@.skip(start as int),
            d.len() == s.len() - start,
            parse_u64(s@) == parse_u64_digits(d),
            forall|k: int| 0 <= k < i - start ==> is_digit(#[trigger] d[k]),
            acc == decimal_value(d.take(i - start)),
        decreases s.len() - i,
    {
        let c = s[i];
        assert(c == d[i - start]);
        if c < 48 || c > 57 {
            assert(!is_digit(d[i - start]));
            return None;
        }
        proof {
            assert(d.take(i - start + 1).drop_last() =~= d.take(i - start));
            assert(d.take(i - start + 1).last() == c);
        }
        let digit: u64 = (c - 48) as u64;
        let next = match acc.checked_mul(10) {
            Some(m) => m.checked_add(digit),
            None => None,
        };
        match next {
            Some(v) => {
                acc = v;
            },
            None => {
                proof {
                    lemma_parse_overflow(d, i - start + 1);
                }
                return None;
            },
        }
        i = i + 1;
    }
    assert(d.take(i - start) =~= d);
    Some(acc)
}


proof fn lemma_zeros_valid_utf8(n: nat)
    ensures
        valid_utf8(Seq::new(n, |i: int| 0u8)),
    decreases n,
{
    let b = Seq::new(n, |i: int| 0u8);
    if n > 0 {
        lemma_zeros_valid_utf8((n - 1) as nat);
        assert(is_leading_byte_width_1(b[0]));
        assert(pop_first_scalar(b) =~= Seq::new((n - 1) as nat, |i: int| 0u8));
    }
}

/// The bytes of a string padded with zeros are valid UTF-8.
proof fn lemma_padded_valid_utf8(s: &str, n: nat)
    requires
        s.spec_bytes().len() <= n,
    ensures
        valid_utf8(zero_padded(s.spec_bytes(), n)),
{
    encode_utf8_valid_utf8(s@);
    lemma_zeros_valid_utf8((n - s.spec_bytes().len()) as nat);
    valid_utf8_concat(s.spec_bytes(), Seq::new((n - s.spec_bytes().len()) as nat, |i: int| 0u8));
}

/// Copies a string into a zero-padded array of `N` bytes.
fn padded_array<const N: usize>(s: &str) -> (r: [u8; N])
    requires
        s.spec_bytes().len() <= N,
    ensures
        r@ == zero_padded(s.spec_bytes(), N as nat),
{
    let b = s.as_bytes();
    let mut arr: [u8; N] = vstd::array::array_fill_for_copy_types(0u8);
    let mut i: usize = 0;
    while i < b.len()
        invariant
            b@ == s.spec_bytes(),
            b@.len() <= N,
            i <= b@.len(),
            arr@.len() == N,
            forall|k: int| 0 <= k < i ==> arr@[k] == b@[k],
            forall|k: int| i <= k < N ==> arr@[k] == 0u8,
        decreases b.len() - i,
    {
        arr[i] = b[i];
        i = i + 1;
    }
    assert(arr@ =~= zero_padded(s.spec_bytes(), N as nat));
    arr
}

/// What the slave knows of one exposed variable.
pub struct SlaveVarModel {
    pub name: Seq<u8>,
    pub id: u8,
    pub data_type: DataGenericType,
    pub size: u8,
}

/// A frame to send, and the error to report when its delivery fails.
#[derive(Debug, Clone, Copy)]
pub struct SlaveFrame {
    pub frame: CanFrame,
    pub on_failure: &'static str,
}

/// What the caller has to do after `check_can_mex_recv`.
#[derive(Debug)]
pub enum SlaveAction {
    /// Nothing.
    Idle,
    /// Send the frames in order with `next_try_after_send`; when the
    /// delivery of one fails, stop and report its `on_failure`.
    Send(Vec<SlaveFrame>),
    /// Write `data` into the variable of slot `slot` (as `DpsType::update`
    /// does, whose result is ignored), then call its post-update function
    /// if it has one.
    UpdateVar { slot: usize, data: [u8; 4] },
}

/// The wire code of a variable type in a metadata frame.
pub open spec fn type_code(t: DataGenericType) -> u8 {
    if t == DataGenericType::Floated {
        1
    } else {
        0
    }
}

/// The word of the reply to a discovery request: board id, mode 0 and the
/// board name as a number.
pub open spec fn discover_word(board_id: u8, name: u64) -> u64 {
    with_field(with_field(with_field(0, 0, 4, board_id as u64), 4, 4, 0), 16, 48, name)
}

/// The word of the variable name reply: board id, mode 1, variable id and
/// the variable name as a number.
pub open spec fn info_name_word(board_id: u8, id: u8, name: u64) -> u64 {
    with_field(
        with_field(with_field(with_field(0, 0, 4, board_id as u64), 4, 4, 1), 8, 4, id as u64),
        16,
        48,
        name,
    )
}

/// The word of the variable metadata reply: the name reply with mode 2 and
/// the type code and the size in their signals.
pub open spec fn info_meta_word(board_id: u8, id: u8, name: u64, type_code: u8, size: u8) -> u64 {
    with_field(
        with_field(with_field(info_name_word(board_id, id, name), 4, 4, 2), 12, 2, type_code as u64),
        14,
        2,
        size as u64,
    )
}

/// The word of the reply to a value request: board id, mode 3 and, when the
/// variable is exposed, its id and the value 42.
pub open spec fn value_reply_word(board_id: u8, var: Option<u8>) -> u64 {
    let base = with_field(with_field(0, 0, 4, board_id as u64), 4, 4, 3);
    match var {
        Some(id) => with_field(with_field(base, 8, 4, id as u64), 16, 32, 42),
        None => base,
    }
}

#[derive(Debug, Clone, Copy)]
struct VarRecordSlave {
    var_name: [u8; VAR_NAME_LENGTH],
    var_id: u8,
    data_type: DataGenericType,
    size: u8,
}

impl VarRecordSlave {
    spec fn model(self) -> SlaveVarModel {
        SlaveVarModel { name: self.var_name@, id: self.var_id, data_type: self.data_type, size: self.size }
    }
}

/// A slave board and the description of its exposed variables.
#[derive(Debug)]
pub struct DpsSlave {
    board_name: [u8; BOARD_NAME_LENGTH],
    vars: [Option<VarRecordSlave>; MAX_NUM_VARS],
    var_cursor: usize,
    board_id: u8,
    obj_ids: u8,
    master_id: u16,
    slave_id: u16,
    enable: bool,
}

impl DpsSlave {
    /// The exposed variables, in the order they were added.
    pub closed spec fn vars(&self) -> Seq<SlaveVarModel> {
        Seq::new(self.var_cursor as nat, |i: int| self.vars@[i]->Some_0.model())
    }

    pub closed spec fn spec_board_name(&self) -> Seq<u8> {
        self.board_name@
    }

    pub closed spec fn spec_board_id(&self) -> u8 {
        self.board_id
    }

    pub closed spec fn spec_master_id(&self) -> u16 {
        self.master_id
    }

    pub closed spec fn spec_slave_id(&self) -> u16 {
        self.slave_id
    }

    pub closed spec fn spec_enabled(&self) -> bool {
        self.enable
    }

    /// Internal consistency of the slave.
    pub closed spec fn wf(&self) -> bool {
        &&& self.var_cursor == self.obj_ids as usize
        &&& self.var_cursor <= MAX_NUM_VARS
        &&& forall|i: int| 0 <= i < MAX_NUM_VARS ==> (i < self.var_cursor <==> self.vars@[i] is Some)
        &&& forall|i: int| 0 <= i < self.var_cursor ==> #[trigger] self.vars@[i]->Some_0.var_id == i
        &&& valid_utf8(self.board_name@)
        &&& forall|i: int| 0 <= i < self.var_cursor ==> valid_utf8(#[trigger] self.vars@[i]->Some_0.var_name@)
    }

    /// Facts about a well-formed slave that its users can rely on.
    pub proof fn lemma_wf(&self)
        requires
            self.wf(),
        ensures
            self.vars().len() <= MAX_NUM_VARS,
            forall|i: int| 0 <= i < self.vars().len() ==> #[trigger] self.vars()[i].id == i,
    {
    }

    /// A disabled slave without variables.  The board name is at most
    /// `BOARD_NAME_LENGTH` bytes long and is stored padded with zeros.
    pub fn new(board_name: &str, board_id: u8, master_id: u16, slave_id: u16) -> (r: Result<
        Self,
        &'static str,
    >)
        ensures
            board_name.spec_bytes().len() > BOARD_NAME_LENGTH ==> (r matches Err(e) && e@
                == "var name string too long "@),
            board_name.spec_bytes().len() <= BOARD_NAME_LENGTH ==> (r matches Ok(s) && s.wf()
                && s.spec_board_name() == zero_padded(
                board_name.spec_bytes(),
                BOARD_NAME_LENGTH as nat,
            ) && s.vars().len() == 0 && s.spec_board_id() == board_id && s.spec_master_id()
                == master_id && s.spec_slave_id() == slave_id && !s.spec_enabled()),
    {
        if board_name.as_bytes().len() > BOARD_NAME_LENGTH {
            return Err("var name string too long ");
        }
        let name_arr: [u8; BOARD_NAME_LENGTH] = padded_array(board_name);
        proof {
            lemma_padded_valid_utf8(board_name, BOARD_NAME_LENGTH as nat);
        }
        let s = Self {
            board_name: name_arr,
            vars: vstd::array::array_fill_for_copy_types(None),
            var_cursor: 0,
            board_id,
            obj_ids: 0,
            master_id,
            slave_id,
            enable: false,
        };
        assert(s.vars() =~= Seq::<SlaveVarModel>::empty());
        Ok(s)
    }

    pub fn enable(&mut self)
        requires
            old(self).wf(),
        ensures
            final(self).wf(),
            final(self).spec_enabled(),
            final(self).vars() == old(self).vars(),
            final(self).spec_board_name() == old(self).spec_board_name(),
            final(self).spec_board_id() == old(self).spec_board_id(),
            final(self).spec_master_id() == old(self).spec_master_id(),
            final(self).spec_slave_id() == old(self).spec_slave_id(),
    {
        self.enable = true
    }

    pub fn disable(&mut self)
        requires
            old(self).wf(),
        ensures
            final(self).wf(),
            !final(self).spec_enabled(),
            final(self).vars() == old(self).vars(),
            final(self).spec_board_name() == old(self).spec_board_name(),
            final(self).spec_board_id() == old(self).spec_board_id(),
            final(self).spec_master_id() == old(self).spec_master_id(),
            final(self).spec_slave_id() == old(self).spec_slave_id(),
    {
        self.enable = false
    }

    /// Exposes one more variable, with the next id, under a name of at most
    /// `VAR_NAME_LENGTH` bytes (stored padded with zeros), a type and a size
    /// in bytes.  Refused while the slave is disabled, for a name that is
    /// too long and when `MAX_NUM_VARS` variables are exposed, in this order.
    pub fn monitor_var(&mut self, var_name: &str, data_type: DataGenericType, type_size: u8) -> (r:
        Result<(), &'static str>)
        requires
            old(self).wf(),
        ensures
            final(self).wf(),
            final(self).spec_enabled() == old(self).spec_enabled(),
            final(self).spec_board_name() == old(self).spec_board_name(),
            final(self).spec_board_id() == old(self).spec_board_id(),
            final(self).spec_master_id() == old(self).spec_master_id(),
            final(self).spec_slave_id() == old(self).spec_slave_id(),
            !old(self).spec_enabled() ==> (r matches Err(e) && e@ == "dps is disable"@),
            old(self).spec_enabled() && var_name.spec_bytes().len() > VAR_NAME_LENGTH ==> (r matches Err(e) && e@
                == "var name string too long "@),
            old(self).spec_enabled() && var_name.spec_bytes().len() <= VAR_NAME_LENGTH
                && old(self).vars().len() >= MAX_NUM_VARS ==> (r matches Err(e) && e@
                == "Current dps node full"@),
            r is Err ==> final(self).vars() == old(self).vars(),
            r is Ok <==> old(self).spec_enabled() && var_name.spec_bytes().len() <= VAR_NAME_LENGTH
                && old(self).vars().len() < MAX_NUM_VARS,
            r is Ok ==> final(self).vars() == old(self).vars().push(
                SlaveVarModel {
                    name: zero_padded(var_name.spec_bytes(), VAR_NAME_LENGTH as nat),
                    id: old(self).vars().len() as u8,
                    data_type,
                    size: type_size,
                },
            ),
    {
        if !self.enable {
            return Err("dps is disable");
        }
        if var_name.as_bytes().len() > VAR_NAME_LENGTH {
            return Err("var name string too long ");
        }
        if self.obj_ids >= 16 {
            return Err("Current dps node full");
        }
        let ghost pre = self.vars();
        let new_id = self.obj_ids;
        self.obj_ids = self.obj_ids + 1;
        let name: [u8; VAR_NAME_LENGTH] = padded_array(var_name);
        proof {
            lemma_padded_valid_utf8(var_name, VAR_NAME_LENGTH as nat);
        }
        let new_var = VarRecordSlave { var_name: name, var_id: new_id, data_type, size: type_size };
        let cursor = self.var_cursor;
        self.vars[cursor] = Some(new_var);
        self.var_cursor = cursor + 1;
        assert(self.vars() =~= pre.push(new_var.model()));
        Ok(())
    }

    /// Whether handling a frame would need to read as a number a name that
    /// is not one: the board name for a discovery request (mode 0), or a
    /// variable name for an information request (mode 1) to this board.
    pub open spec fn name_parse_fails(&self, mex_id: u16, p: Seq<u8>) -> bool {
        let w = le_word(p);
        let mode = field_of(w, 0, 4);
        &&& self.spec_enabled()
        &&& mex_id == self.spec_master_id()
        &&& p.len() == 8
        &&& {
            ||| mode == 0 && parse_u64(self.spec_board_name()) is None
            ||| mode == 1 && field_of(w, 4, 4) == self.spec_board_id() && exists|i: int|
                0 <= i < self.vars().len() && parse_u64(#[trigger] self.vars()[i].name) is None
        }
    }

    /// `str::parse::<u64>` of a stored name, which is valid UTF-8.
    fn parse_name(name: &[u8]) -> (r: Option<u64>)
        requires
            valid_utf8(name@),
        ensures
            r == parse_u64(name@),
    {
        match str_from_utf8(name) {
            Some(text) => parse_decimal_u64(text.as_bytes()),
            None => {
                proof {
                    assert(false);
                }
                None
            },
        }
    }

    /// The slot of the variable with this id.
    fn _find_var(&self, var_id: u8) -> (r: Option<usize>)
        requires
            self.wf(),
        ensures
            r == (if (var_id as int) < self.vars().len() {
                Some(var_id as usize)
            } else {
                None::<usize>
            }),
    {
        let mut i: usize = 0;
        while i < self.var_cursor
            invariant
                self.wf(),
                i <= self.var_cursor,
                var_id as int >= i,
            decreases self.var_cursor - i,
        {
            match &self.vars[i] {
                Some(var) => {
                    if var.var_id == var_id {
                        return Some(i);
                    }
                },
                None => {},
            }
            i = i + 1;
        }
        None
    }

    fn _discover_board(&self) -> (r: Result<SlaveAction, &'static str>)
        requires
            self.wf(),
            parse_u64(self.spec_board_name()) is Some,
        ensures
            r matches Ok(SlaveAction::Send(v)) && v@.len() == 1 && v@[0].frame.id
                == self.spec_slave_id() && v@[0].frame.word() == discover_word(
                self.spec_board_id(),
                parse_u64(self.spec_board_name())->Some_0,
            ) && v@[0].on_failure@ == "failed to send discover board response"@,
    {
        let mut slave_mex = match DpsSlaveMex::new(self.board_id, 0) {
            Ok(m) => m,
            Err(_) => {
                return Err("failed to send discover board response");
            },
        };
        let mut slave_mode_0 = DpsSlaveMexModeM0::new();
        let name_value = match Self::parse_name(self.board_name.as_slice()) {
            Some(v) => v,
            None => {
                return Err("failed to send discover board response");
            },
        };
        let _ = slave_mode_0.set_board_name(name_value);
        let _ = slave_mex.set_m0(slave_mode_0);
        proof {
            let b = self.board_id;
            let n = name_value;
            assert(with_field(
                with_field(with_field(0, 0, 4, b as u64), 4, 4, 0) | with_field(0, 16, 48, n),
                4,
                4,
                0,
            ) == discover_word(b, n)) by (bit_vector);
        }
        let mut frames: Vec<SlaveFrame> = Vec::new();
        frames.push(
            SlaveFrame {
                frame: CanFrame { id: self.slave_id, payload: *slave_mex.raw() },
                on_failure: "failed to send discover board response",
            },
        );
        Ok(SlaveAction::Send(frames))
    }

    fn _request_info(&self, master_mex: &DpsMasterMexModeM1) -> (r: Result<SlaveAction, &'static str>)
        requires
            self.wf(),
            master_mex.spec_var_name_board_id() == self.spec_board_id() ==> forall|i: int|
                0 <= i < self.vars().len() ==> parse_u64(#[trigger] self.vars()[i].name) is Some,
        ensures
            master_mex.spec_var_name_board_id() != self.spec_board_id() ==> r matches Ok(
                SlaveAction::Idle,
            ),
            master_mex.spec_var_name_board_id() == self.spec_board_id() ==> (r matches Ok(
                SlaveAction::Send(v),
            ) && v@.len() == 2 * self.vars().len() && forall|k: int|
                0 <= k < self.vars().len() ==> {
                    let var = #[trigger] self.vars()[k];
                    let name = parse_u64(var.name)->Some_0;
                    &&& v@[2 * k].frame.id == self.spec_slave_id()
                    &&& v@[2 * k].frame.word() == info_name_word(self.spec_board_id(), var.id, name)
                    &&& v@[2 * k].on_failure@ == "failed sending slave resp request info mex name"@
                    &&& v@[2 * k + 1].frame.id == self.spec_slave_id()
                    &&& v@[2 * k + 1].frame.word() == info_meta_word(
                        self.spec_board_id(),
                        var.id,
                        name,
                        type_code(var.data_type),
                        var.size,
                    )
                    &&& v@[2 * k + 1].on_failure@
                        == "failed sending slave resp request info mex metadata"@
                }),
    {
        if self.board_id != master_mex.var_name_board_id() {
            return Ok(SlaveAction::Idle);
        }
        let mut frames: Vec<SlaveFrame> = Vec::new();
        let mut i: usize = 0;
        while i < self.var_cursor
            invariant
                self.wf(),
                i <= self.var_cursor,
                forall|j: int| 0 <= j < self.vars().len() ==> parse_u64(#[trigger] self.vars()[j].name) is Some,
                frames@.len() == 2 * i,
                forall|k: int|
                    0 <= k < i ==> {
                        let var = #[trigger] self.vars()[k];
                        let name = parse_u64(var.name)->Some_0;
                        &&& frames@[2 * k].frame.id == self.slave_id
                        &&& frames@[2 * k].frame.word() == info_name_word(self.board_id, var.id, name)
                        &&& frames@[2 * k].on_failure@
                            == "failed sending slave resp request info mex name"@
                        &&& frames@[2 * k + 1].frame.id == self.slave_id
                        &&& frames@[2 * k + 1].frame.word() == info_meta_word(
                            self.board_id,
                            var.id,
                            name,
                            type_code(var.data_type),
                            var.size,
                        )
                        &&& frames@[2 * k + 1].on_failure@
                            == "failed sending slave resp request info mex metadata"@
                    },
            decreases self.var_cursor - i,
        {
            match &self.vars[i] {
                Some(var) => {
                    assert(var.model() == self.vars()[i as int]);
                    assert(parse_u64(self.vars()[i as int].name) is Some);
                    let mut slave_mex = match DpsSlaveMex::new(self.board_id, 1) {
                        Ok(m) => m,
                        Err(_) => {
                            return Err("failed sending slave resp request info mex name");
                        },
                    };
                    let mut slave_mode_1 = DpsSlaveMexModeM1::new();
                    let mut slave_mode_2 = DpsSlaveMexModeM2::new();
                    let name_value = match Self::parse_name(var.var_name.as_slice()) {
                        Some(v) => v,
                        None => {
                            return Err("failed sending slave resp request info mex name");
                        },
                    };
                    let _ = slave_mode_1.set_info_var_id(var.var_id);
                    let _ = slave_mode_1.set_var_name(name_value);
                    let _ = slave_mex.set_m1(slave_mode_1);
                    let ghost w1 = slave_mex@;
                    proof {
                        let b = self.board_id;
                        let id = var.var_id;
                        let n = name_value;
                        assert(with_field(
                            with_field(with_field(0, 0, 4, b as u64), 4, 4, 1) | with_field(
                                with_field(0, 8, 4, id as u64),
                                16,
                                48,
                                n,
                            ),
                            4,
                            4,
                            1,
                        ) == info_name_word(b, id, n)) by (bit_vector);
                    }
                    let ghost before = frames@;
                    frames.push(
                        SlaveFrame {
                            frame: CanFrame { id: self.slave_id, payload: *slave_mex.raw() },
                            on_failure: "failed sending slave resp request info mex name",
                        },
                    );
                    let code: u8 = match var.data_type {
                        DataGenericType::Unsigned | DataGenericType::Signed => 0,
                        DataGenericType::Floated => 1,
                    };
                    let _ = slave_mode_2.set_value_var_id(var.var_id);
                    let _ = slave_mode_2.set_value_var_size(var.size);
                    let _ = slave_mode_2.set_value_var_type(code);
                    let _ = slave_mex.set_m2(slave_mode_2);
                    proof {
                        let b = self.board_id;
                        let id = var.var_id;
                        let n = name_value;
                        let sz = var.size;
                        let t = code;
                        assert(with_field(
                            info_name_word(b, id, n) | with_field(
                                with_field(with_field(0, 8, 4, id as u64), 14, 2, sz as u64),
                                12,
                                2,
                                t as u64,
                            ),
                            4,
                            4,
                            2,
                        ) == info_meta_word(b, id, n, t, sz)) by (bit_vector);
                    }
                    frames.push(
                        SlaveFrame {
                            frame: CanFrame { id: self.slave_id, payload: *slave_mex.raw() },
                            on_failure: "failed sending slave resp request info mex metadata",
                        },
                    );
                    proof {
                        assert forall|k: int| 0 <= k < i + 1 implies {
                            let var = #[trigger] self.vars()[k];
                            let name = parse_u64(var.name)->Some_0;
                            &&& frames@[2 * k].frame.id == self.slave_id
                            &&& frames@[2 * k].frame.word() == info_name_word(self.board_id, var.id, name)
                            &&& frames@[2 * k].on_failure@
                                == "failed sending slave resp request info mex name"@
                            &&& frames@[2 * k + 1].frame.id == self.slave_id
                            &&& frames@[2 * k + 1].frame.word() == info_meta_word(
                                self.board_id,
                                var.id,
                                name,
                                type_code(var.data_type),
                                var.size,
                            )
                            &&& frames@[2 * k + 1].on_failure@
                                == "failed sending slave resp request info mex metadata"@
                        } by {
                            if k < i {
                                assert(frames@[2 * k] == before[2 * k]);
                                assert(frames@[2 * k + 1] == before[2 * k + 1]);
                            }
                        }
                    }
                },
                None => {},
            }
            i = i + 1;
        }
        Ok(SlaveAction::Send(frames))
    }

    fn _request_var_value(&self, master_mex: &DpsMasterMexModeM2) -> (r: Result<SlaveAction, &'static str>)
        requires
            self.wf(),
        ensures
            master_mex.spec_var_refresh_board_id() != self.spec_board_id() ==> r matches Ok(
                SlaveAction::Idle,
            ),
            master_mex.spec_var_refresh_board_id() == self.spec_board_id() ==> {
                let id = master_mex.spec_var_refresh_var_id();
                let found = if (id as int) < self.vars().len() {
                    Some(id)
                } else {
                    None::<u8>
                };
                r matches Ok(SlaveAction::Send(v)) && v@.len() == 1 && v@[0].frame.id
                    == self.spec_slave_id() && v@[0].frame.word() == value_reply_word(
                    self.spec_board_id(),
                    found,
                ) && v@[0].on_failure@ == "failed send message for request var value"@
            },
    {
        if self.board_id != master_mex.var_refresh_board_id() {
            return Ok(SlaveAction::Idle);
        }
        let mut slave_mex = match DpsSlaveMex::new(self.board_id, 3) {
            Ok(m) => m,
            Err(_) => {
                return Err("failed send message for request var value");
            },
        };
        let mut slave_mex_mode_3 = DpsSlaveMexModeM3::new();
        let b = self.board_id;
        match self._find_var(master_mex.var_refresh_var_id()) {
            Some(slot) => {
                let var_id = slot as u8;
                let var_value: u32 = 42;
                let _ = slave_mex_mode_3.set_var_id(var_id);
                let _ = slave_mex_mode_3.set_value(var_value);
                let _ = slave_mex.set_m3(slave_mex_mode_3);
                proof {
                    assert(with_field(
                        with_field(with_field(0, 0, 4, b as u64), 4, 4, 3) | with_field(
                            with_field(0, 8, 4, var_id as u64),
                            16,
                            32,
                            42,
                        ),
                        4,
                        4,
                        3,
                    ) == value_reply_word(b, Some(var_id))) by (bit_vector);
                }
            },
            None => {},
        }
        let mut frames: Vec<SlaveFrame> = Vec::new();
        frames.push(
            SlaveFrame {
                frame: CanFrame { id: self.slave_id, payload: *slave_mex.raw() },
                on_failure: "failed send message for request var value",
            },
        );
        Ok(SlaveAction::Send(frames))
    }

    fn _update_var_value(&self, master_mex: &DpsMasterMexModeM3) -> (r: Result<SlaveAction, &'static str>)
        requires
            self.wf(),
        ensures
            master_mex.spec_var_value_board_id() != self.spec_board_id() ==> r matches Ok(
                SlaveAction::Idle,
            ),
            master_mex.spec_var_value_board_id() == self.spec_board_id() ==> {
                let id = master_mex.spec_var_value_var_id();
                if (id as int) < self.vars().len() {
                    r matches Ok(SlaveAction::UpdateVar { slot, data }) && slot == id && data@
                        == le_bytes(master_mex.spec_value() as u64).take(4)
                } else {
                    r matches Err(e) && e@ == "variable not found"@
                }
            },
    {
        let val_slice = u32_le_bytes(master_mex.value());
        if self.board_id != master_mex.var_value_board_id() {
            return Ok(SlaveAction::Idle);
        }
        match self._find_var(master_mex.var_value_var_id()) {
            Some(slot) => Ok(SlaveAction::UpdateVar { slot, data: val_slice }),
            None => Err("variable not found"),
        }
    }

    /// What `check_can_mex_recv` answers to a frame with identifier
    /// `mex_id` and payload `p`.
    pub open spec fn recv_answer(&self, mex_id: u16, p: Seq<u8>, r: Result<SlaveAction, &'static str>) -> bool {
        let w = le_word(p);
        let mode = field_of(w, 0, 4);
        let board = field_of(w, 4, 4);
        let id = field_of(w, 8, 4);
        if !self.spec_enabled() {
            r matches Err(e) && e@ == "dps is disable"@
        } else if mex_id != self.spec_master_id() {
            r matches Err(e) && e@ == "not right master id"@
        } else if p.len() != 8 {
            r matches Err(e) && e@ == "invalid master mex payload"@
        } else if mode > 3 {
            r matches Err(e) && e@ == "invalid master mex mode"@
        } else if mode == 0 {
            r matches Ok(SlaveAction::Send(v)) && v@.len() == 1 && v@[0].frame.id
                == self.spec_slave_id() && v@[0].frame.word() == discover_word(
                self.spec_board_id(),
                parse_u64(self.spec_board_name())->Some_0,
            ) && v@[0].on_failure@ == "failed to send discover board response"@
        } else if board != self.spec_board_id() {
            r matches Ok(SlaveAction::Idle)
        } else if mode == 1 {
            r matches Ok(SlaveAction::Send(v)) && v@.len() == 2 * self.vars().len()
                && forall|k: int|
                0 <= k < self.vars().len() ==> {
                    let var = #[trigger] self.vars()[k];
                    let name = parse_u64(var.name)->Some_0;
                    &&& v@[2 * k].frame.id == self.spec_slave_id()
                    &&& v@[2 * k].frame.word() == info_name_word(
                        self.spec_board_id(),
                        var.id,
                        name,
                    )
                    &&& v@[2 * k].on_failure@
                        == "failed sending slave resp request info mex name"@
                    &&& v@[2 * k + 1].frame.id == self.spec_slave_id()
                    &&& v@[2 * k + 1].frame.word() == info_meta_word(
                        self.spec_board_id(),
                        var.id,
                        name,
                        type_code(var.data_type),
                        var.size,
                    )
                    &&& v@[2 * k + 1].on_failure@
                        == "failed sending slave resp request info mex metadata"@
                }
        } else if mode == 2 {
            let found = if id < self.vars().len() {
                Some(id as u8)
            } else {
                None::<u8>
            };
            r matches Ok(SlaveAction::Send(v)) && v@.len() == 1 && v@[0].frame.id
                == self.spec_slave_id() && v@[0].frame.word() == value_reply_word(
                self.spec_board_id(),
                found,
            ) && v@[0].on_failure@ == "failed send message for request var value"@
        } else if id < self.vars().len() {
            r matches Ok(SlaveAction::UpdateVar { slot, data }) && slot == id && data@
                == le_bytes(field_of(w, 16, 32)).take(4)
        } else {
            r matches Err(e) && e@ == "variable not found"@
        }
    }

    /// Handles a master frame received from the bus and tells what to do.
    ///
    /// A disabled slave refuses every frame, then a frame from another
    /// identifier than the master's, then a payload that is not 8 bytes
    /// long, then a mode above 3.  Otherwise, by mode: a discovery request
    /// (0) is answered with the board's id and name; an information request
    /// (1), a value request (2) and a value update (3) that name another
    /// board are ignored; for this board an information request is answered
    /// with a name and a metadata frame per variable, a value request with
    /// the value 42 for the named variable (or with no variable when the id
    /// is not exposed), and a value update asks the caller to write the
    /// value's four little-endian bytes into the variable (an error when
    /// the id is not exposed).
    ///
    /// Names are sent as the numbers they read as in decimal; a frame that
    /// needs a name that does not read as one is outside the contract
    /// (see `name_parse_fails` and `can_handle`).
    pub fn check_can_mex_recv(&self, mex: &CanMessage) -> (r: Result<SlaveAction, &'static str>)
        requires
            self.wf(),
            !self.name_parse_fails(mex.id, mex.payload@),
        ensures
            self.recv_answer(mex.id, mex.payload@, r),
    {
        if !self.enable {
            return Err("dps is disable");
        }
        if mex.id != self.master_id {
            return Err("not right master id");
        }
        let mut master_mex = match DpsMasterMex::try_from(mex.payload) {
            Ok(m) => m,
            Err(_) => {
                return Err("invalid master mex payload");
            },
        };
        let ghost w = master_mex@;
        proof {
            crate::common::bitfield::lemma_signal_bounds(w);
        }
        let mode = match master_mex.mode() {
            Ok(m) => m,
            Err(_) => {
                return Err("invalid master mex mode");
            },
        };
        match mode {
            DpsMasterMexMode::M0(_) => self._discover_board(),
            DpsMasterMexMode::M1(mex_mode_1) => self._request_info(&mex_mode_1),
            DpsMasterMexMode::M2(mex_mode_2) => self._request_var_value(&mex_mode_2),
            DpsMasterMexMode::M3(mex_mode_3) => self._update_var_value(&mex_mode_3),
        }
    }

    /// Whether `check_can_mex_recv` can handle this frame: false exactly when
    /// it would need a name that does not read as a number.
    pub fn can_handle(&self, mex: &CanMessage) -> (r: bool)
        requires
            self.wf(),
        ensures
            r == !self.name_parse_fails(mex.id, mex.payload@),
    {
        if !self.enable || mex.id != self.master_id {
            return true;
        }
        let mut master_mex = match DpsMasterMex::try_from(mex.payload) {
            Ok(m) => m,
            Err(_) => {
                return true;
            },
        };
        let ghost w = master_mex@;
        proof {
            crate::common::bitfield::lemma_signal_bounds(w);
        }
        let target = match master_mex.mode() {
            Ok(DpsMasterMexMode::M0(_)) => {
                return Self::parse_name(self.board_name.as_slice()).is_some();
            },
            Ok(DpsMasterMexMode::M1(mex_mode_1)) => mex_mode_1.var_name_board_id(),
            _ => {
                return true;
            },
        };
        if target != self.board_id {
            return true;
        }
        let mut i: usize = 0;
        while i < self.var_cursor
            invariant
                self.wf(),
                i <= self.var_cursor,
                forall|j: int| 0 <= j < i ==> parse_u64(#[trigger] self.vars()[j].name) is Some,
                self.spec_enabled(),
                mex.id == self.spec_master_id(),
                mex.payload@.len() == 8,
                field_of(le_word(mex.payload@), 0, 4) == 1,
                field_of(le_word(mex.payload@), 4, 4) == self.spec_board_id(),
            decreases self.var_cursor - i,
        {
            match &self.vars[i] {
                Some(var) => {
                    assert(var.model() == self.vars()[i as int]);
                    if Self::parse_name(var.var_name.as_slice()).is_none() {
                        assert(parse_u64(self.vars()[i as int].name) is None);
                        return false;
                    }
                },
                None => {},
            }
            i = i + 1;
        }
        true
    }
}

/// Law: a value update built by a master for this board and an exposed
/// variable (`var_value_word`), received by an enabled slave from the
/// master's identifier, needs no name, and the slave asks its caller to
/// write into that variable's slot the value's four little-endian bytes,
/// which a 32-bit variable then reads back as the value.
pub proof fn lemma_update_frame_applies(
    s: DpsSlave,
    f: CanFrame,
    var_id: u8,
    value: u32,
    r: Result<SlaveAction, &'static str>,
)
    requires
        s.wf(),
        s.spec_enabled(),
        s.spec_board_id() < 16,
        (var_id as int) < s.vars().len(),
        f.id == s.spec_master_id(),
        f.word() == var_value_word(s.spec_board_id(), var_id, value),
        s.recv_answer(f.id, f.payload@, r),
    ensures
        !s.name_parse_fails(f.id, f.payload@),
        r matches Ok(SlaveAction::UpdateVar { slot, data }) && slot == var_id && data@ == le_bytes(
            value as u64,
        ).take(4) && <u32 as DpsType>::spec_from_le(data@) == value,
{
    lemma_var_value_fields(s.spec_board_id(), var_id, value);
    lemma_update_le_bytes_32(value);
}

/// Law: a value update for a variable that this board does not expose is
/// refused with "variable not found".
pub proof fn lemma_update_unknown_var_refused(
    s: DpsSlave,
    f: CanFrame,
    var_id: u8,
    value: u32,
    r: Result<SlaveAction, &'static str>,
)
    requires
        s.wf(),
        s.spec_enabled(),
        s.spec_board_id() < 16,
        var_id < 16,
        (var_id as int) >= s.vars().len(),
        f.id == s.spec_master_id(),
        f.word() == var_value_word(s.spec_board_id(), var_id, value),
        s.recv_answer(f.id, f.payload@, r),
    ensures
        r matches Err(e) && e@ == "variable not found"@,
{
    lemma_var_value_fields(s.spec_board_id(), var_id, value);
}

/// Law: a refresh request built by a master for this board
/// (`refresh_request_word`), received by an enabled slave from the master's
/// identifier, needs no name and is answered with one value frame: the
/// value 42 for an exposed variable, and no variable otherwise.
pub proof fn lemma_refresh_request_answered(
    s: DpsSlave,
    f: CanFrame,
    var_id: u8,
    r: Result<SlaveAction, &'static str>,
)
    requires
        s.wf(),
        s.spec_enabled(),
        s.spec_board_id() < 16,
        var_id < 16,
        f.id == s.spec_master_id(),
        f.word() == refresh_request_word(s.spec_board_id(), var_id),
        s.recv_answer(f.id, f.payload@, r),
    ensures
        !s.name_parse_fails(f.id, f.payload@),
        r matches Ok(SlaveAction::Send(v)) && v@.len() == 1 && v@[0].frame.id == s.spec_slave_id()
            && v@[0].frame.word() == value_reply_word(
            s.spec_board_id(),
            if (var_id as int) < s.vars().len() {
                Some(var_id)
            } else {
                None::<u8>
            },
        ),
{
    lemma_refresh_request_fields(s.spec_board_id(), var_id);
}

/// Law: the answer of an enabled slave to an information request for its
/// board gives, for the `k`-th exposed variable, a name frame (mode 1) and
/// then a metadata frame (mode 2) that both carry the board id, the
/// variable id `k` and the name read as a number; the metadata frame's
/// type signal is 1 for a float variable and 0 for any other (signed ones
/// included), and its size signal holds the low two bits of the size.
pub proof fn lemma_info_answer_fields(
    s: DpsSlave,
    request: Seq<u8>,
    answer: Result<SlaveAction, &'static str>,
    k: int,
)
    requires
        s.wf(),
        s.spec_enabled(),
        s.spec_board_id() < 16,
        request.len() == 8,
        field_of(le_word(request), 0, 4) == 1,
        field_of(le_word(request), 4, 4) == s.spec_board_id(),
        s.recv_answer(s.spec_master_id(), request, answer),
        0 <= k < s.vars().len(),
    ensures
        answer matches Ok(SlaveAction::Send(v)) && {
            let var = s.vars()[k];
            let name = parse_u64(var.name)->Some_0 & low_mask(48);
            let nw = v@[2 * k].frame.word();
            let mw = v@[2 * k + 1].frame.word();
            &&& v@.len() == 2 * s.vars().len()
            &&& v@[2 * k].frame.id == s.spec_slave_id()
            &&& v@[2 * k + 1].frame.id == s.spec_slave_id()
            &&& field_of(nw, 0, 4) == s.spec_board_id()
            &&& field_of(nw, 4, 4) == 1
            &&& field_of(nw, 8, 4) == k
            &&& field_of(nw, 16, 48) == name
            &&& field_of(mw, 0, 4) == s.spec_board_id()
            &&& field_of(mw, 4, 4) == 2
            &&& field_of(mw, 8, 4) == k
            &&& field_of(mw, 12, 2) == (if var.data_type == DataGenericType::Floated {
                1u64
            } else {
                0u64
            })
            &&& field_of(mw, 14, 2) == var.size % 4
            &&& field_of(mw, 16, 48) == name
        },
{
    s.lemma_wf();
    let var = s.vars()[k];
    let b = s.spec_board_id();
    let id = var.id;
    assert(id == k && id < 16);
    let n = parse_u64(var.name)->Some_0;
    let t = type_code(var.data_type);
    let sz = var.size;
    let nw = info_name_word(b, id, n);
    let mw = info_meta_word(b, id, n, t, sz);
    assert(field_of(nw, 0, 4) == b as u64 && field_of(nw, 4, 4) == 1 && field_of(nw, 8, 4)
        == id as u64 && field_of(nw, 16, 48) == n & low_mask(48)) by (bit_vector)
        requires
            nw == info_name_word(b, id, n),
            b < 16,
            id < 16,
    ;
    assert(field_of(mw, 0, 4) == b as u64 && field_of(mw, 4, 4) == 2 && field_of(mw, 8, 4)
        == id as u64 && field_of(mw, 12, 2) == t & 3 && field_of(mw, 14, 2) == sz & 3 && field_of(
        mw,
        16,
        48,
    ) == n & low_mask(48)) by (bit_vector)
        requires
            mw == info_meta_word(b, id, n, t, sz),
            b < 16,
            id < 16,
    ;
    assert(sz & 3 == sz % 4) by (bit_vector);
    assert(t & 3 == t) by (bit_vector)
        requires
            t <= 1,
    ;
}

} // verus!
