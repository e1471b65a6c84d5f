//! The in-memory instruction graph of a parsed SPIR-V module.
use vstd::prelude::*;

verus! {

/// The kind of value an operand holds.
#[derive(Clone, Copy, Debug, PartialEq, Eq, Structural)]
pub enum OperandKind {
    IdRef,
    LiteralInt32,
    LiteralInt64,
    LiteralString,
    StorageClass,
    Decoration,
    Dim,
    ExecutionMode,
    Other,
}

/// One operand of an instruction. Enumerants (storage class, decoration, dimensionality,
/// execution mode) are kept as their numeric SPIR-V codes.
#[derive(Debug)]
pub enum Operand {
    IdRef(u32),
    LiteralInt32(u32),
    LiteralInt64(u64),
    LiteralString(String),
    StorageClass(u32),
    Decoration(u32),
    Dim(u32),
    ExecutionMode(u32),
    /// Any operand kind that reflection never reads.
    Other,
}

impl Clone for Operand {
    fn clone(&self) -> (r: Self)
        ensures
            r == *self,
    {
        match self {
            Operand::IdRef(v) => Operand::IdRef(*v),
            Operand::LiteralInt32(v) => Operand::LiteralInt32(*v),
            Operand::LiteralInt64(v) => Operand::LiteralInt64(*v),
            Operand::LiteralString(s) => Operand::LiteralString(s.clone()),
            Operand::StorageClass(v) => Operand::StorageClass(*v),
            Operand::Decoration(v) => Operand::Decoration(*v),
            Operand::Dim(v) => Operand::Dim(*v),
            Operand::ExecutionMode(v) => Operand::ExecutionMode(*v),
            Operand::Other => Operand::Other,
        }
    }
}

impl Operand {
    pub open spec fn kind(self) -> OperandKind {
        match self {
            Operand::IdRef(_) => OperandKind::IdRef,
            Operand::LiteralInt32(_) => OperandKind::LiteralInt32,
            Operand::LiteralInt64(_) => OperandKind::LiteralInt64,
            Operand::LiteralString(_) => OperandKind::LiteralString,
            Operand::StorageClass(_) => OperandKind::StorageClass,
            Operand::Decoration(_) => OperandKind::Decoration,
            Operand::Dim(_) => OperandKind::Dim,
            Operand::ExecutionMode(_) => OperandKind::ExecutionMode,
            Operand::Other => OperandKind::Other,
        }
    }

    /// The 32-bit payload of an operand whose kind carries one.
    pub open spec fn word(self) -> u32 {
        match self {
            Operand::IdRef(v) => v,
            Operand::LiteralInt32(v) => v,
            Operand::StorageClass(v) => v,
            Operand::Decoration(v) => v,
            Operand::Dim(v) => v,
            Operand::ExecutionMode(v) => v,
            _ => 0,
        }
    }

    pub fn kind_of(&self) -> (r: OperandKind)
        ensures
            r == self.kind(),
    {
        match self {
            Operand::IdRef(_) => OperandKind::IdRef,
            Operand::LiteralInt32(_) => OperandKind::LiteralInt32,
            Operand::LiteralInt64(_) => OperandKind::LiteralInt64,
            Operand::LiteralString(_) => OperandKind::LiteralString,
            Operand::StorageClass(_) => OperandKind::StorageClass,
            Operand::Decoration(_) => OperandKind::Decoration,
            Operand::Dim(_) => OperandKind::Dim,
            Operand::ExecutionMode(_) => OperandKind::ExecutionMode,
            Operand::Other => OperandKind::Other,
        }
    }
}

/// Kinds whose payload is one 32-bit word.
pub open spec fn is_word_kind(k: OperandKind) -> bool {
    match k {
        OperandKind::IdRef | OperandKind::LiteralInt32 | OperandKind::StorageClass
        | OperandKind::Decoration | OperandKind::Dim | OperandKind::ExecutionMode => true,
        _ => false,
    }
}

/// One instruction: its opcode, optional result type and result ids, and operands.
#[derive(Debug)]
pub struct Instruction {
    pub opcode: u32,
    pub result_type: Option<u32>,
    pub result_id: Option<u32>,
    pub operands: Vec<Operand>,
}

pub struct InstructionView {
    pub opcode: u32,
    pub result_type: Option<u32>,
    pub result_id: Option<u32>,
    pub operands: Seq<Operand>,
}

impl View for Instruction {
    type V = InstructionView;

    open spec fn view(&self) -> InstructionView {
        InstructionView {
            opcode: self.opcode,
            result_type: self.result_type,
            result_id: self.result_id,
            operands: self.operands@,
        }
    }
}

impl Clone for Instruction {
    fn clone(&self) -> (r: Self)
        ensures
            r@ == self@,
    {
        let operands = self.operands.clone();
        assert(operands@ =~= self.operands@);
        Instruction {
            opcode: self.opcode,
            result_type: self.result_type,
            result_id: self.result_id,
            operands,
        }
    }
}

/// A parsed module: the SPIR-V version from its header and the sections reflection reads.
#[derive(Debug)]
pub struct Module {
    /// `(major, minor)`, or `None` when the module has no header.
    pub version: Option<(u8, u8)>,
    /// The `OpExecutionMode` instructions.
    pub execution_modes: Vec<Instruction>,
    /// `OpName` and `OpMemberName` instructions.
    pub debug_names: Vec<Instruction>,
    /// `OpDecorate` and `OpMemberDecorate` instructions.
    pub annotations: Vec<Instruction>,
    /// Types, constants and module-level variables.
    pub types_global_values: Vec<Instruction>,
}

pub struct ModuleView {
    pub version: Option<(u8, u8)>,
    pub execution_modes: Seq<InstructionView>,
    pub debug_names: Seq<InstructionView>,
    pub annotations: Seq<InstructionView>,
    pub types: Seq<InstructionView>,
}

pub open spec fn instructions_view(s: Seq<Instruction>) -> Seq<InstructionView> {
    s.map_values(|i: Instruction| i@)
}

impl View for Module {
    type V = ModuleView;

    open spec fn view(&self) -> ModuleView {
        ModuleView {
            version: self.version,
            execution_modes: instructions_view(self.execution_modes@),
            debug_names: instructions_view(self.debug_names@),
            annotations: instructions_view(self.annotations@),
            types: instructions_view(self.types_global_values@),
        }
    }
}

} // verus!
