//! Loading a SPIR-V binary through rspirv's parser into the library's module model.
use vstd::prelude::*;
use rspirv::binary::ParseState;
use rspirv::dr::Instruction as RawInstruction;
use rspirv::dr::Operand as RawOperand;
use crate::error::ReflectError;
use crate::module::{instructions_view, Instruction, InstructionView, Module, ModuleView, Operand};
use crate::reflection::Reflection;

verus! {

#[verifier::external_type_specification]
#[verifier::external_body]
pub struct ExRawInstruction(RawInstruction);

#[verifier::external_type_specification]
#[verifier::external_body]
pub struct ExRawOperand(RawOperand);

#[verifier::external_type_specification]
#[verifier::external_body]
pub struct ExParseState(rspirv::binary::ParseState);

/// Whether `code` is long enough for the five-word module header and starts with the SPIR-V
/// magic number as a little-endian word.
pub open spec fn has_spirv_header(code: Seq<u8>) -> bool {
    &&& code.len() >= 20
    &&& code[0] == 0x03 && code[1] == 0x02 && code[2] == 0x23 && code[3] == 0x07
}

/// The low half of the little-endian word at byte `o`.
pub open spec fn low_half_at(code: Seq<u8>, o: int) -> int {
    code[o] + code[o + 1] * 256
}

/// The word count of the instruction starting at byte `o`: the high half of its first word.
pub open spec fn word_count_at(code: Seq<u8>, o: int) -> int {
    low_half_at(code, o + 2)
}

/// Opcodes whose operands include a context-dependent literal, a nested spec-constant
/// operation or literal/label pairs: `OpConstant`, `OpSpecConstant`, `OpSpecConstantOp` and
/// `OpSwitch`.
pub open spec fn has_context_operands(opcode: int) -> bool {
    opcode == 43 || opcode == 50 || opcode == 52 || opcode == 251
}

/// Whether the instruction at byte `o` (of `count` words, all in `code`) is an
/// `OpSpecConstantOp` whose operation, read from the low half of its fourth word, is one of
/// `has_context_operands`.
pub open spec fn is_nested_context_operation(code: Seq<u8>, o: int, count: int) -> bool {
    low_half_at(code, o) == 52 && count >= 4 && has_context_operands(low_half_at(code, o + 12))
}

/// Whether every instruction from byte `o` on ends within `code` and none is a
/// `is_nested_context_operation`, walking from one instruction to the next by word counts.
/// The walk stops, as the parser does, where less than a word is left or at a word count of 0.
pub open spec fn instructions_admissible(code: Seq<u8>, o: int) -> bool
    decreases code.len() - o,
{
    if o < 0 || o + 4 > code.len() {
        true
    } else if word_count_at(code, o) == 0 {
        true
    } else if o + word_count_at(code, o) * 4 > code.len() {
        false
    } else if is_nested_context_operation(code, o, word_count_at(code, o)) {
        false
    } else {
        instructions_admissible(code, o + word_count_at(code, o) * 4)
    }
}

/// Whether the instructions after the header are admissible; see `instructions_admissible`.
pub open spec fn is_admissible(code: Seq<u8>) -> bool {
    instructions_admissible(code, 20)
}

/// Whether rspirv's parser accepts the bytes; it depends on the bytes alone.
pub uninterp spec fn spirv_accepts(code: Seq<u8>) -> bool;

/// The module that rspirv loads from the bytes, in the library's model: its version and its
/// execution-mode, debug-name, annotation and type sections, instruction by instruction.
pub uninterp spec fn spirv_module(code: Seq<u8>) -> ModuleView;

/// Section indices of a `LoadedModule`.
pub const SECTION_EXECUTION_MODES: usize = 0;
pub const SECTION_DEBUG_NAMES: usize = 1;
pub const SECTION_ANNOTATIONS: usize = 2;
pub const SECTION_TYPES: usize = 3;

/// A section of a module view by index.
pub open spec fn section_view(m: ModuleView, s: int) -> Seq<InstructionView> {
    if s == SECTION_EXECUTION_MODES {
        m.execution_modes
    } else if s == SECTION_DEBUG_NAMES {
        m.debug_names
    } else if s == SECTION_ANNOTATIONS {
        m.annotations
    } else {
        m.types
    }
}

/// The sections of a module that rspirv loaded, in the order of `SECTION_*`, kept with the
/// bytes they were loaded from. Only `load` builds one.
pub struct LoadedModule {
    sections: [Vec<RawInstruction>; 4],
    code: Vec<u8>,
}

impl LoadedModule {
    /// The bytes the module was loaded from.
    pub closed spec fn source(&self) -> Seq<u8> {
        self.code@
    }
}

/// Relies on `rspirv::dr::load_bytes`: its parser first reads five little-endian header words
/// and fails when they are missing or the first is not the magic number; the version is bytes
/// 2 and 1 of the second word (`utils/version.rs`); it succeeds or fails, and builds its module,
/// by the bytes alone. It slices a string operand up to the end that its instruction's word
/// count declares without checking it against the stream, and panics on the operand kinds that
/// `has_context_operands` names inside an `OpSpecConstantOp`, so inputs that are not
/// `is_admissible` are left out.
#[verifier::external_body]
fn load(code: &[u8]) -> (r: Result<LoadedModule, ParseState>)
    requires
        is_admissible(code@),
    ensures
        r is Ok <==> spirv_accepts(code@),
        r is Ok ==> has_spirv_header(code@) && r->Ok_0.source() == code@,
        r is Ok ==> spirv_module(code@).version == Some((code@[6], code@[5])),
{
    let m = rspirv::dr::load_bytes(code)?;
    let sections = [m.execution_modes, m.debug_names, m.annotations, m.types_global_values];
    Ok(LoadedModule { sections, code: code.to_vec() })
}

/// Relies on the sections of `rspirv::dr::Module`: the length of one.
#[verifier::external_body]
fn section_len(l: &LoadedModule, s: usize) -> (r: usize)
    requires
        s < 4,
    ensures
        r == section_view(spirv_module(l.source()), s as int).len(),
{
    l.sections[s].len()
}

/// Relies on the fields of `rspirv::dr::Instruction`: the opcode of its grammar class (a
/// `repr(u32)` enum), its result type and result id, and its operand count.
#[verifier::external_body]
fn instruction_parts(l: &LoadedModule, s: usize, k: usize) -> (r: (u32, Option<u32>, Option<u32>, usize))
    requires
        s < 4,
        k < section_view(spirv_module(l.source()), s as int).len(),
    ensures
        ({
            let i = section_view(spirv_module(l.source()), s as int)[k as int];
            r.0 == i.opcode && r.1 == i.result_type && r.2 == i.result_id && r.3 == i.operands.len()
        }),
{
    let i = &l.sections[s][k];
    (i.class.opcode as u32, i.result_type, i.result_id, i.operands.len())
}

/// Relies on `rspirv::dr::Operand`: one operand, converted; its enumerants are `repr(u32)` enums
/// of the `spirv` crate and become their codes, and kinds reflection never reads become `Other`.
#[verifier::external_body]
fn operand_at(l: &LoadedModule, s: usize, k: usize, j: usize) -> (r: Operand)
    requires
        s < 4,
        k < section_view(spirv_module(l.source()), s as int).len(),
        j < section_view(spirv_module(l.source()), s as int)[k as int].operands.len(),
    ensures
        r == section_view(spirv_module(l.source()), s as int)[k as int].operands[j as int],
{
    match &l.sections[s][k].operands[j] {
        RawOperand::IdRef(v) => Operand::IdRef(*v),
        RawOperand::LiteralInt32(v) => Operand::LiteralInt32(*v),
        RawOperand::LiteralInt64(v) => Operand::LiteralInt64(*v),
        RawOperand::LiteralString(s) => Operand::LiteralString(s.clone()),
        RawOperand::StorageClass(c) => Operand::StorageClass(*c as u32),
        RawOperand::Decoration(d) => Operand::Decoration(*d as u32),
        RawOperand::Dim(d) => Operand::Dim(*d as u32),
        RawOperand::ExecutionMode(x) => Operand::ExecutionMode(*x as u32),
        _ => Operand::Other,
    }
}

/// Whether the instructions after the header are admissible; see `is_admissible`.
pub fn check_admissible(code: &[u8]) -> (r: bool)
    ensures
        r == is_admissible(code@),
{
    let mut o: usize = 20;
    while o <= code.len() && code.len() - o >= 4
        invariant
            20 <= o,
            is_admissible(code@) == instructions_admissible(code@, o as int),
        decreases code@.len() - o,
    {
        let count = code[o + 2] as usize + code[o + 3] as usize * 256;
        if count == 0 {
            return true;
        }
        if code.len() - o < count * 4 {
            return false;
        }
        let opcode = code[o] as usize + code[o + 1] as usize * 256;
        if opcode == 52 && count >= 4 {
            let operation = code[o + 12] as usize + code[o + 13] as usize * 256;
            if operation == 43 || operation == 50 || operation == 52 || operation == 251 {
                return false;
            }
        }
        o = o + count * 4;
    }
    true
}

/// The library's copy of instruction `k` of section `s`, operand by operand.
fn convert_instruction(l: &LoadedModule, s: usize, k: usize) -> (r: Instruction)
    requires
        s < 4,
        k < section_view(spirv_module(l.source()), s as int).len(),
    ensures
        r@ == section_view(spirv_module(l.source()), s as int)[k as int],
{
    let ghost i = section_view(spirv_module(l.source()), s as int)[k as int];
    let (opcode, result_type, result_id, count) = instruction_parts(l, s, k);
    let mut operands: Vec<Operand> = Vec::new();
    let mut j: usize = 0;
    while j < count
        invariant
            s < 4,
            k < section_view(spirv_module(l.source()), s as int).len(),
            i == section_view(spirv_module(l.source()), s as int)[k as int],
            count == i.operands.len(),
            j <= count,
            operands@ == i.operands.subrange(0, j as int),
        decreases count - j,
    {
        operands.push(operand_at(l, s, k, j));
        j = j + 1;
    }
    assert(operands@ =~= i.operands);
    Instruction { opcode, result_type, result_id, operands }
}

/// The library's copy of section `s`, in order.
fn convert_section(l: &LoadedModule, s: usize) -> (r: Vec<Instruction>)
    requires
        s < 4,
    ensures
        instructions_view(r@) == section_view(spirv_module(l.source()), s as int),
{
    let ghost sec = section_view(spirv_module(l.source()), s as int);
    let n = section_len(l, s);
    let mut out: Vec<Instruction> = Vec::new();
    let mut k: usize = 0;
    while k < n
        invariant
            s < 4,
            sec == section_view(spirv_module(l.source()), s as int),
            n == sec.len(),
            k <= n,
            instructions_view(out@) == sec.subrange(0, k as int),
        decreases n - k,
    {
        let ghost before = out@;
        out.push(convert_instruction(l, s, k));
        assert(instructions_view(out@) =~= instructions_view(before).push(sec[k as int]));
        k = k + 1;
    }
    assert(instructions_view(out@) =~= sec);
    out
}

impl Reflection {
    /// Parses a SPIR-V binary and wraps the module rspirv builds from it. It succeeds exactly
    /// when the bytes are admissible (see `is_admissible`) and rspirv's parser accepts them;
    /// every failure is `ParseError`.
    pub fn new_from_spirv(code: &[u8]) -> (r: Result<Reflection, ReflectError>)
        ensures
            r is Ok <==> is_admissible(code@) && spirv_accepts(code@),
            r is Err ==> r->Err_0 is ParseError,
            !has_spirv_header(code@) ==> r is Err,
            r is Ok ==> r->Ok_0.0@ == spirv_module(code@),
            r is Ok ==> r->Ok_0.0.version == Some((code@[6], code@[5])),
    {
        if !check_admissible(code) {
            return Err(ReflectError::ParseError);
        }
        let loaded = match load(code) {
            Ok(l) => l,
            Err(_) => return Err(ReflectError::ParseError),
        };
        let module = Module {
            version: Some((code[6], code[5])),
            execution_modes: convert_section(&loaded, SECTION_EXECUTION_MODES),
            debug_names: convert_section(&loaded, SECTION_DEBUG_NAMES),
            annotations: convert_section(&loaded, SECTION_ANNOTATIONS),
            types_global_values: convert_section(&loaded, SECTION_TYPES),
        };
        assert(module@ =~= spirv_module(code@));
        Ok(Reflection::new(module))
    }
}

} // verus!
