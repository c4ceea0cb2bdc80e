//! What is specific to the SPIR-V dialect: identifiers, immediates, operands,
//! and the header fields of a binary module.

use vstd::prelude::*;

use crate::small::OperandList;
use crate::spv::spec::OperandKind;

pub mod spec;

verus! {

/// A SPIR-V result identifier: any 32-bit value but zero.
#[derive(Copy, Clone, PartialEq, Eq, Structural, Debug, Hash)]
pub struct Id {
    value: u32,
}

impl View for Id {
    type V = u32;

    closed spec fn view(&self) -> u32 {
        self.value
    }
}

impl Id {
    #[verifier::type_invariant]
    spec fn nonzero(self) -> bool {
        self.value != 0
    }

    /// The identifier with the given value, unless that value is zero.
    pub fn new(value: u32) -> (id: Option<Id>)
        ensures
            id is None <==> value == 0,
            id matches Some(i) ==> i@ == value,
    {
        if value == 0 {
            None
        } else {
            Some(Id { value })
        }
    }

    /// The identifier's value, which is never zero.
    pub fn get(self) -> (value: u32)
        ensures
            value == self@,
            value != 0,
    {
        proof {
            use_type_invariant(&self);
        }
        self.value
    }

    /// Two identifiers with the same value are the same identifier.
    pub proof fn lemma_view_injective(a: Id, b: Id)
        ensures
            a@ == b@ <==> a == b,
    {
    }
}

/// A 32-bit word of literal data, tagged with the operand kind it stands for.
///
/// A literal wider than one word is a `LongStart` followed by one
/// `LongCont` for each further word; nothing here joins them.
#[derive(Copy, Clone, PartialEq, Eq, Structural, Debug, Hash)]
pub enum Imm {
    Short(OperandKind, u32),
    LongStart(OperandKind, u32),
    LongCont(OperandKind, u32),
}

/// One operand of an instruction as it stands in a binary module.
///
/// `ForwardIdRef` marks an identifier that is used before the instruction
/// that defines it; it is for the reader's bookkeeping only. The module's own
/// instructions ([`Misc`](crate::Misc)) have no such operand.
#[derive(Copy, Clone, PartialEq, Eq, Structural, Debug, Hash)]
pub enum Operand {
    ShortImm(OperandKind, u32),
    LongImmStart(OperandKind, u32),
    LongImmCont(OperandKind, u32),
    Id(OperandKind, Id),
    ForwardIdRef(OperandKind, Id),
}

/// One instruction as it stands in a binary module.
#[derive(Debug)]
pub struct Inst {
    pub opcode: u16,
    pub result_type_id: Option<Id>,
    pub result_id: Option<Id>,
    pub operands: OperandList,
}

/// The header fields of a binary module, kept as they were read.
#[derive(PartialEq, Eq, Debug, Hash)]
pub struct ModuleLayout {
    pub header_version: u32,
    pub original_generator_magic: u32,
    pub original_id_bound: u32,
    pub capabilities: Vec<u32>,
}

/// What a module says of the SPIR-V it was made from: its header and the
/// extensions it declares.
#[derive(PartialEq, Eq, Debug, Hash)]
pub struct Dialect {
    pub layout: ModuleLayout,
    pub extensions: Vec<String>,
}

/// The debug instructions of a module that belong to no single entity.
#[derive(PartialEq, Eq, Debug, Hash)]
pub struct ModuleDebugInfo {
    pub source_extensions: Vec<String>,
    pub module_processes: Vec<String>,
}

} // verus!
