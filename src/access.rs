//! Reading the instruction graph: operands by position and kind, the instruction that assigns
//! an id, and the annotations that target an id.
use vstd::prelude::*;
use crate::error::{result_view, ReflectError, ReflectErrorView};
use crate::module::{instructions_view, is_word_kind, Instruction, InstructionView, Operand, OperandKind};
use crate::reflection::Reflection;

verus! {

/// The operand at `idx`, provided it is of kind `kind`.
pub open spec fn spec_operand(i: InstructionView, idx: int, kind: OperandKind) -> Result<
    Operand,
    ReflectErrorView,
> {
    if idx >= i.operands.len() {
        Err(ReflectErrorView::OperandIndexError(i, kind, idx as usize, i.operands.len() as usize))
    } else if i.operands[idx].kind() == kind {
        Ok(i.operands[idx])
    } else {
        Err(ReflectErrorView::OperandError(i, kind, idx as usize))
    }
}

/// The 32-bit payload of the operand at `idx`, provided it is of kind `kind`.
pub open spec fn spec_word(i: InstructionView, idx: int, kind: OperandKind) -> Result<
    u32,
    ReflectErrorView,
> {
    match spec_operand(i, idx, kind) {
        Ok(o) => Ok(o.word()),
        Err(e) => Err(e),
    }
}

/// The 64-bit literal at `idx`.
pub open spec fn spec_long(i: InstructionView, idx: int) -> Result<u64, ReflectErrorView> {
    match spec_operand(i, idx, OperandKind::LiteralInt64) {
        Ok(Operand::LiteralInt64(v)) => Ok(v),
        Ok(_) => Ok(0),
        Err(e) => Err(e),
    }
}

/// The string literal at `idx`.
pub open spec fn spec_string(i: InstructionView, idx: int) -> Result<String, ReflectErrorView> {
    match spec_operand(i, idx, OperandKind::LiteralString) {
        Ok(Operand::LiteralString(s)) => Ok(s),
        Ok(_) => Ok(arbitrary()),
        Err(e) => Err(e),
    }
}

/// Borrows the operand at `idx`; fails with `OperandIndexError` past the last operand and with
/// `OperandError` when the operand is of another kind.
pub fn operand_ref(instr: &Instruction, idx: usize, kind: OperandKind) -> (r: Result<
    &Operand,
    ReflectError,
>)
    ensures
        match r {
            Ok(o) => spec_operand(instr@, idx as int, kind) == Ok::<Operand, ReflectErrorView>(*o),
            Err(e) => spec_operand(instr@, idx as int, kind) == Err::<Operand, ReflectErrorView>(e@),
        },
{
    if idx >= instr.operands.len() {
        Err(ReflectError::OperandIndexError(instr.clone(), kind, idx, instr.operands.len()))
    } else if instr.operands[idx].kind_of() == kind {
        Ok(&instr.operands[idx])
    } else {
        Err(ReflectError::OperandError(instr.clone(), kind, idx))
    }
}

/// The 32-bit payload of the operand at `idx`, with the errors of `operand_ref`.
pub fn word_operand(instr: &Instruction, idx: usize, kind: OperandKind) -> (r: Result<
    u32,
    ReflectError,
>)
    requires
        is_word_kind(kind),
    ensures
        result_view(r) == spec_word(instr@, idx as int, kind),
{
    match operand_ref(instr, idx, kind) {
        Ok(o) => match o {
            Operand::IdRef(v) => Ok(*v),
            Operand::LiteralInt32(v) => Ok(*v),
            Operand::StorageClass(v) => Ok(*v),
            Operand::Decoration(v) => Ok(*v),
            Operand::Dim(v) => Ok(*v),
            Operand::ExecutionMode(v) => Ok(*v),
            _ => Ok(0),
        },
        Err(e) => Err(e),
    }
}

/// The 64-bit literal at `idx`, with the errors of `operand_ref`.
pub fn long_operand(instr: &Instruction, idx: usize) -> (r: Result<u64, ReflectError>)
    ensures
        result_view(r) == spec_long(instr@, idx as int),
{
    match operand_ref(instr, idx, OperandKind::LiteralInt64) {
        Ok(Operand::LiteralInt64(v)) => Ok(*v),
        Ok(_) => Ok(0),
        Err(e) => Err(e),
    }
}

/// Borrows the string literal at `idx`, with the errors of `operand_ref`.
pub fn string_operand(instr: &Instruction, idx: usize) -> (r: Result<&String, ReflectError>)
    ensures
        match r {
            Ok(s) => spec_string(instr@, idx as int) == Ok::<String, ReflectErrorView>(*s),
            Err(e) => spec_string(instr@, idx as int) == Err::<String, ReflectErrorView>(e@),
        },
{
    match operand_ref(instr, idx, OperandKind::LiteralString) {
        Ok(Operand::LiteralString(s)) => Ok(s),
        Ok(_) => unreached(),
        Err(e) => Err(e),
    }
}

/// The first instruction at or after `k` whose result id is `id`.
pub open spec fn spec_find_from(s: Seq<InstructionView>, id: u32, k: int) -> Result<
    InstructionView,
    ReflectErrorView,
>
    decreases s.len() - k,
{
    if k < 0 || k >= s.len() {
        Err(ReflectErrorView::UnassignedResultId(id))
    } else if s[k].result_id == Some(id) {
        Ok(s[k])
    } else {
        spec_find_from(s, id, k + 1)
    }
}

/// The first instruction of `s` whose result id is `id`, or `UnassignedResultId`.
pub open spec fn spec_find_assignment(s: Seq<InstructionView>, id: u32) -> Result<
    InstructionView,
    ReflectErrorView,
> {
    spec_find_from(s, id, 0)
}

/// The annotations among the first `n` of `s` whose operand 0 is `IdRef(id)`, in order; the
/// first annotation whose operand 0 is no id fails the lookup.
pub open spec fn spec_annotations_upto(s: Seq<InstructionView>, id: u32, n: int) -> Result<
    Seq<InstructionView>,
    ReflectErrorView,
>
    decreases n,
{
    if n <= 0 {
        Ok(Seq::empty())
    } else {
        match spec_annotations_upto(s, id, n - 1) {
            Err(e) => Err(e),
            Ok(acc) => match spec_word(s[n - 1], 0, OperandKind::IdRef) {
                Err(e) => Err(e),
                Ok(target) => if target == id {
                    Ok(acc.push(s[n - 1]))
                } else {
                    Ok(acc)
                },
            },
        }
    }
}

pub open spec fn spec_annotations_for(s: Seq<InstructionView>, id: u32) -> Result<
    Seq<InstructionView>,
    ReflectErrorView,
> {
    spec_annotations_upto(s, id, s.len() as int)
}

/// Once a prefix of the annotations fails the lookup, every longer prefix fails with the same
/// error.
pub proof fn lemma_annotations_failure_persists(s: Seq<InstructionView>, id: u32, k: int, n: int)
    requires
        k <= n,
        spec_annotations_upto(s, id, k) is Err,
    ensures
        spec_annotations_upto(s, id, n) == spec_annotations_upto(s, id, k),
    decreases n - k,
{
    if k < n {
        lemma_annotations_failure_persists(s, id, k, n - 1);
    }
}

pub open spec fn refs_view(v: Seq<&Instruction>) -> Seq<InstructionView> {
    v.map_values(|i: &Instruction| i@)
}

impl Reflection {
    /// The first instruction whose result id is `id`; fails with `UnassignedResultId(id)`
    /// when none is.
    pub fn find_assignment_for(instructions: &[Instruction], id: u32) -> (r: Result<
        &Instruction,
        ReflectError,
    >)
        ensures
            match r {
                Ok(i) => spec_find_assignment(instructions_view(instructions@), id) == Ok::<
                    InstructionView,
                    ReflectErrorView,
                >(i@),
                Err(e) => spec_find_assignment(instructions_view(instructions@), id) == Err::<
                    InstructionView,
                    ReflectErrorView,
                >(e@),
            },
    {
        let ghost s = instructions_view(instructions@);
        let mut k: usize = 0;
        while k < instructions.len()
            invariant
                k <= instructions@.len(),
                s == instructions_view(instructions@),
                spec_find_from(s, id, 0) == spec_find_from(s, id, k as int),
            decreases instructions@.len() - k,
        {
            if instructions[k].result_id == Some(id) {
                return Ok(&instructions[k]);
            }
            k = k + 1;
        }
        Err(ReflectError::UnassignedResultId(id))
    }

    /// Every annotation whose operand 0 is `IdRef(id)`, in order. An annotation whose operand 0
    /// is missing or no id fails the lookup with the operand error, whatever `id` is.
    pub fn find_annotations_for_id(annotations: &[Instruction], id: u32) -> (r: Result<
        Vec<&Instruction>,
        ReflectError,
    >)
        ensures
            match r {
                Ok(v) => spec_annotations_for(instructions_view(annotations@), id) == Ok::<
                    Seq<InstructionView>,
                    ReflectErrorView,
                >(refs_view(v@)),
                Err(e) => spec_annotations_for(instructions_view(annotations@), id) == Err::<
                    Seq<InstructionView>,
                    ReflectErrorView,
                >(e@),
            },
    {
        let ghost s = instructions_view(annotations@);
        let mut found: Vec<&Instruction> = Vec::new();
        assert(refs_view(found@) =~= Seq::<InstructionView>::empty());
        let mut k: usize = 0;
        while k < annotations.len()
            invariant
                k <= annotations@.len(),
                s == instructions_view(annotations@),
                spec_annotations_upto(s, id, k as int) == Ok::<
                    Seq<InstructionView>,
                    ReflectErrorView,
                >(refs_view(found@)),
            decreases annotations@.len() - k,
        {
            let a = &annotations[k];
            match word_operand(a, 0, OperandKind::IdRef) {
                Err(e) => {
                    proof {
                        lemma_annotations_failure_persists(s, id, k as int + 1, s.len() as int);
                    }
                    return Err(e);
                },
                Ok(target) => {
                    if target == id {
                        let ghost before = found@;
                        found.push(a);
                        assert(refs_view(found@) =~= refs_view(before).push(a@));
                    }
                },
            }
            k = k + 1;
        }
        Ok(found)
    }
}

} // verus!
