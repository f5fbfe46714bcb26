//! A slave node that describes its variables by primitive type and keeps
//! them, with a reference to each variable's bytes, in a growable vector.
//!
//! The post-update function of a variable stays with the caller: a
//! function pointer cannot be held in verified code.
pub mod node;

use crate::common::{DataGenericType, BOARD_NAME_LENGTH, VAR_NAME_LENGTH};
use vstd::prelude::*;

verus! {

/// The primitive types a variable can have.
#[derive(Debug, Clone, Copy, PartialEq, Eq, Structural)]
pub enum DpsPrimitiveTypes {
    DpsTypesUint8T,
    DpsTypesUint16T,
    DpsTypesUint32T,
    DpsTypesInt8T,
    DpsTypesInt16T,
    DpsTypesInt32T,
    DpsTypesFloatT,
}

/// The generic kind of a primitive type.
pub open spec fn kind_of(t: DpsPrimitiveTypes) -> DataGenericType {
    match t {
        DpsPrimitiveTypes::DpsTypesUint8T | DpsPrimitiveTypes::DpsTypesUint16T
        | DpsPrimitiveTypes::DpsTypesUint32T => DataGenericType::Unsigned,
        DpsPrimitiveTypes::DpsTypesInt8T | DpsPrimitiveTypes::DpsTypesInt16T
        | DpsPrimitiveTypes::DpsTypesInt32T => DataGenericType::Signed,
        DpsPrimitiveTypes::DpsTypesFloatT => DataGenericType::Floated,
    }
}

/// What the slave knows of one monitored variable.
pub struct MonitoredVar {
    pub name: Seq<u8>,
    pub id: u8,
    pub data_type: DataGenericType,
    /// The bytes of the variable that the slave refers to.
    pub var: Seq<u8>,
}

#[derive(Debug, Clone, Copy)]
struct VarRecordSlave<'a> {
    ref_var: &'a [u8],
    var_name: [u8; VAR_NAME_LENGTH],
    var_id: u8,
    data_type: DataGenericType,
}

impl<'a> VarRecordSlave<'a> {
    spec fn model(self) -> MonitoredVar {
        MonitoredVar {
            name: self.var_name@,
            id: self.var_id,
            data_type: self.data_type,
            var: self.ref_var@,
        }
    }
}

/// A slave board and the description of its monitored variables.
#[derive(Debug)]
pub struct DpsSlave<'a> {
    board_name: [u8; BOARD_NAME_LENGTH],
    vars: Vec<VarRecordSlave<'a>>,
    board_id: u8,
    obj_ids: u8,
    master_id: u8,
    slave_id: u8,
    enable: bool,
}

impl<'a> DpsSlave<'a> {
    /// The monitored variables, in the order they were added.
    pub closed spec fn vars(&self) -> Seq<MonitoredVar> {
        self.vars@.map_values(|v: VarRecordSlave<'a>| v.model())
    }

    pub closed spec fn spec_board_name(&self) -> Seq<u8> {
        self.board_name@
    }

    pub closed spec fn spec_board_id(&self) -> u8 {
        self.board_id
    }

    pub closed spec fn spec_master_id(&self) -> u8 {
        self.master_id
    }

    pub closed spec fn spec_slave_id(&self) -> u8 {
        self.slave_id
    }

    pub closed spec fn spec_enabled(&self) -> bool {
        self.enable
    }

    /// The id that the next monitored variable gets.
    pub closed spec fn spec_next_id(&self) -> u8 {
        self.obj_ids
    }

    /// Consistency of the slave: the id counter is the number of monitored
    /// variables, and each variable's id is its position.
    pub open spec fn wf(&self) -> bool {
        &&& self.spec_next_id() == self.vars().len()
        &&& forall|i: int| 0 <= i < self.vars().len() ==> #[trigger] self.vars()[i].id == i
    }

    pub fn new(
        board_name: [u8; BOARD_NAME_LENGTH],
        board_id: u8,
        master_id: u8,
        slave_id: u8,
    ) -> (r: Self)
        ensures
            r.wf(),
            r.spec_board_name() == board_name@,
            r.vars() == Seq::<MonitoredVar>::empty(),
            r.spec_next_id() == 0,
            r.spec_board_id() == board_id,
            r.spec_master_id() == master_id,
            r.spec_slave_id() == slave_id,
            !r.spec_enabled(),
    {
        let r = Self {
            board_name,
            vars: Vec::new(),
            board_id,
            obj_ids: 0,
            master_id,
            slave_id,
            enable: false,
        };
        assert(r.vars() =~= Seq::<MonitoredVar>::empty());
        r
    }

    pub fn enable(&mut self)
        requires
            old(self).wf(),
        ensures
            final(self).wf(),
            final(self).spec_enabled(),
            final(self).vars() == old(self).vars(),
            final(self).spec_next_id() == old(self).spec_next_id(),
            final(self).spec_board_name() == old(self).spec_board_name(),
            final(self).spec_board_id() == old(self).spec_board_id(),
            final(self).spec_master_id() == old(self).spec_master_id(),
            final(self).spec_slave_id() == old(self).spec_slave_id(),
    {
        self.enable = true
    }

    /// Leaves the slave enabled: this node sets the flag to
    /// `true` here as well.
    pub fn disable(&mut self)
        requires
            old(self).wf(),
        ensures
            final(self).wf(),
            final(self).spec_enabled(),
            final(self).vars() == old(self).vars(),
            final(self).spec_next_id() == old(self).spec_next_id(),
            final(self).spec_board_name() == old(self).spec_board_name(),
            final(self).spec_board_id() == old(self).spec_board_id(),
            final(self).spec_master_id() == old(self).spec_master_id(),
            final(self).spec_slave_id() == old(self).spec_slave_id(),
    {
        self.enable = true
    }

    /// Adds a variable of the given primitive type and name, referring to
    /// the variable's bytes `var`, with the next id.  The id counter is a byte: 255 variables are the most it counts.
    pub fn monitor_primitive_var(
        &mut self,
        data_type: DpsPrimitiveTypes,
        var: &'a [u8],
        var_name: [u8; VAR_NAME_LENGTH],
    )
        requires
            old(self).wf(),
            old(self).spec_next_id() < 255,
        ensures
            final(self).wf(),
            final(self).vars() == old(self).vars().push(
                MonitoredVar {
                    name: var_name@,
                    id: old(self).spec_next_id(),
                    data_type: kind_of(data_type),
                    var: var@,
                },
            ),
            final(self).spec_next_id() == old(self).spec_next_id() + 1,
            final(self).spec_enabled() == old(self).spec_enabled(),
            final(self).spec_board_name() == old(self).spec_board_name(),
            final(self).spec_board_id() == old(self).spec_board_id(),
            final(self).spec_master_id() == old(self).spec_master_id(),
            final(self).spec_slave_id() == old(self).spec_slave_id(),
    {
        let mut new_var = VarRecordSlave {
            ref_var: var,
            var_name,
            var_id: self.obj_ids,
            data_type: DataGenericType::Unsigned,
        };
        self.obj_ids = self.obj_ids + 1;
        match data_type {
            DpsPrimitiveTypes::DpsTypesUint8T | DpsPrimitiveTypes::DpsTypesUint16T
            | DpsPrimitiveTypes::DpsTypesUint32T => new_var.data_type = DataGenericType::Unsigned,
            DpsPrimitiveTypes::DpsTypesInt8T | DpsPrimitiveTypes::DpsTypesInt16T
            | DpsPrimitiveTypes::DpsTypesInt32T => new_var.data_type = DataGenericType::Signed,
            DpsPrimitiveTypes::DpsTypesFloatT => new_var.data_type = DataGenericType::Floated,
        };
        let ghost pre = self.vars();
        self.vars.push(new_var);
        assert(self.vars() =~= pre.push(new_var.model()));
    }
}

} // verus!
