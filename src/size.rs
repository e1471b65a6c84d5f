//! Byte sizes of types, for the push-constant range.
use vstd::prelude::*;
use crate::access::{refs_view, spec_annotations_for, spec_find_assignment, spec_word, word_operand};
use crate::error::{reflected_outcome, result_view, Outcome, Reflected, ReflectError, ReflectErrorView};
use crate::module::{Instruction, InstructionView, Module, ModuleView, OperandKind};
use crate::reflection::Reflection;
use crate::spirv::{
    DECORATION_OFFSET, OP_MEMBER_DECORATE, OP_TYPE_ARRAY, OP_TYPE_FLOAT, OP_TYPE_INT, OP_TYPE_MATRIX,
    OP_TYPE_STRUCT, OP_TYPE_VECTOR,
};

verus! {

/// The largest `Offset` among the first `n` member decorations of `anns` (0 when there is
/// none); a member decoration without a decoration operand 2, or an `Offset` without a
/// literal operand 3, fails.
pub open spec fn spec_max_offset(anns: Seq<InstructionView>, n: int) -> Result<u32, ReflectErrorView>
    decreases n,
{
    if n <= 0 {
        Ok(0)
    } else {
        match spec_max_offset(anns, n - 1) {
            Err(e) => Err(e),
            Ok(mx) => {
                let a = anns[n - 1];
                if a.opcode != OP_MEMBER_DECORATE {
                    Ok(mx)
                } else {
                    match spec_word(a, 2, OperandKind::Decoration) {
                        Err(e) => Err(e),
                        Ok(d) => if d != DECORATION_OFFSET {
                            Ok(mx)
                        } else {
                            match spec_word(a, 3, OperandKind::LiteralInt32) {
                                Err(e) => Err(e),
                                Ok(off) => Ok(if off > mx { off } else { mx }),
                            }
                        },
                    }
                }
            },
        }
    }
}

/// The byte offset of a struct's last member: the largest `Offset` member decoration of the
/// struct, or 0 when it has fewer than two members.
pub open spec fn spec_byte_offset_to_last_var(m: ModuleView, t: InstructionView) -> Result<
    u32,
    ReflectErrorView,
> {
    if t.operands.len() < 2 {
        Ok(0)
    } else {
        match t.result_id {
            None => Err(ReflectErrorView::MissingResultId(t)),
            Some(id) => match spec_annotations_for(m.annotations, id) {
                Err(e) => Err(e),
                Ok(anns) => spec_max_offset(anns, anns.len() as int),
            },
        }
    }
}

/// The byte size of the type assigned to `id`, or an abort when the fuel is spent.
pub open spec fn spec_size_of_id(m: ModuleView, id: u32, fuel: nat) -> Outcome<u32>
    decreases fuel, 0nat,
{
    if fuel == 0 {
        Outcome::Aborted
    } else {
        match spec_find_assignment(m.types, id) {
            Err(e) => Outcome::Failed(e),
            Ok(t) => spec_variable_size(m, t, (fuel - 1) as nat),
        }
    }
}

/// `a * b`, or an abort when it does not fit in 32 bits.
pub open spec fn checked_product(a: u32, b: u32) -> Outcome<u32> {
    if a * b > u32::MAX {
        Outcome::Aborted
    } else {
        Outcome::Done((a * b) as u32)
    }
}

/// The byte size of a type: a scalar is its width in bytes, a vector or matrix and an array
/// its element size times its count, a struct the offset of its last member plus that
/// member's size (0 when it has no member), anything else 0. A size past 32 bits aborts.
pub open spec fn spec_variable_size(m: ModuleView, t: InstructionView, fuel: nat) -> Outcome<u32>
    decreases fuel, 1nat,
{
    if t.opcode == OP_TYPE_INT || t.opcode == OP_TYPE_FLOAT {
        match spec_word(t, 0, OperandKind::LiteralInt32) {
            Err(e) => Outcome::Failed(e),
            Ok(w) => Outcome::Done(w / 8),
        }
    } else if t.opcode == OP_TYPE_VECTOR || t.opcode == OP_TYPE_MATRIX {
        match spec_word(t, 0, OperandKind::IdRef) {
            Err(e) => Outcome::Failed(e),
            Ok(id) => match spec_size_of_id(m, id, fuel) {
                Outcome::Done(sz) => match spec_word(t, 1, OperandKind::LiteralInt32) {
                    Err(e) => Outcome::Failed(e),
                    Ok(count) => checked_product(sz, count),
                },
                other => other,
            },
        }
    } else if t.opcode == OP_TYPE_ARRAY {
        match spec_word(t, 0, OperandKind::IdRef) {
            Err(e) => Outcome::Failed(e),
            Ok(id) => match spec_size_of_id(m, id, fuel) {
                Outcome::Done(sz) => match spec_word(t, 1, OperandKind::IdRef) {
                    Err(e) => Outcome::Failed(e),
                    Ok(len_id) => match spec_find_assignment(m.types, len_id) {
                        Err(e) => Outcome::Failed(e),
                        Ok(c) => match spec_word(c, 0, OperandKind::LiteralInt32) {
                            Err(e) => Outcome::Failed(e),
                            Ok(count) => checked_product(sz, count),
                        },
                    },
                },
                other => other,
            },
        }
    } else if t.opcode == OP_TYPE_STRUCT {
        if t.operands.len() == 0 {
            Outcome::Done(0)
        } else {
            match spec_byte_offset_to_last_var(m, t) {
                Err(e) => Outcome::Failed(e),
                Ok(off) => match spec_word(t, t.operands.len() - 1, OperandKind::IdRef) {
                    Err(e) => Outcome::Failed(e),
                    Ok(id) => match spec_size_of_id(m, id, fuel) {
                        Outcome::Done(sz) => if off + sz > u32::MAX {
                            Outcome::Aborted
                        } else {
                            Outcome::Done((off + sz) as u32)
                        },
                        other => other,
                    },
                },
            }
        }
    } else {
        Outcome::Done(0)
    }
}

impl Reflection {
    /// The byte offset of a struct's last member; see `spec_byte_offset_to_last_var`.
    pub fn byte_offset_to_last_var(reflect: &Module, struct_instruction: &Instruction) -> (r: Result<
        u32,
        ReflectError,
    >)
        ensures
            result_view(r) == spec_byte_offset_to_last_var(reflect@, struct_instruction@),
    {
        if struct_instruction.operands.len() < 2 {
            return Ok(0);
        }
        let result_id = match struct_instruction.result_id {
            Some(id) => id,
            None => return Err(ReflectError::MissingResultId(struct_instruction.clone())),
        };
        let anns = match Reflection::find_annotations_for_id(&reflect.annotations, result_id) {
            Ok(v) => v,
            Err(e) => return Err(e),
        };
        let ghost s = refs_view(anns@);
        let mut mx: u32 = 0;
        let mut k: usize = 0;
        while k < anns.len()
            invariant
                k <= anns@.len(),
                s == refs_view(anns@),
                spec_byte_offset_to_last_var(reflect@, struct_instruction@) == spec_max_offset(
                    s,
                    s.len() as int,
                ),
                spec_max_offset(s, k as int) == Ok::<u32, ReflectErrorView>(mx),
            decreases anns@.len() - k,
        {
            let a = anns[k];
            if a.opcode == OP_MEMBER_DECORATE {
                match word_operand(a, 2, OperandKind::Decoration) {
                    Err(e) => {
                        proof {
                            lemma_max_offset_failure_persists(s, k as int + 1, s.len() as int);
                        }
                        return Err(e);
                    },
                    Ok(d) => {
                        if d == DECORATION_OFFSET {
                            match word_operand(a, 3, OperandKind::LiteralInt32) {
                                Err(e) => {
                                    proof {
                                        lemma_max_offset_failure_persists(s, k as int + 1, s.len() as int);
                                    }
                                    return Err(e);
                                },
                                Ok(off) => {
                                    if off > mx {
                                        mx = off;
                                    }
                                },
                            }
                        }
                    },
                }
            }
            k = k + 1;
        }
        Ok(mx)
    }

    /// The byte size of a type; see `spec_variable_size`. `fuel` is as for
    /// `get_descriptor_type_for_var`.
    pub fn calculate_variable_size_bytes(reflect: &Module, type_instruction: &Instruction, fuel: usize) -> (r:
        Reflected<u32>)
        ensures
            reflected_outcome(r) == spec_variable_size(reflect@, type_instruction@, fuel as nat),
        decreases fuel, 1nat,
    {
        let opcode = type_instruction.opcode;
        if opcode == OP_TYPE_INT || opcode == OP_TYPE_FLOAT {
            match word_operand(type_instruction, 0, OperandKind::LiteralInt32) {
                Ok(w) => Reflected::Done(w / 8),
                Err(e) => Reflected::Failed(e),
            }
        } else if opcode == OP_TYPE_VECTOR || opcode == OP_TYPE_MATRIX {
            let id = match word_operand(type_instruction, 0, OperandKind::IdRef) {
                Ok(v) => v,
                Err(e) => return Reflected::Failed(e),
            };
            let size = match Reflection::size_of_id(reflect, id, fuel) {
                Reflected::Done(v) => v,
                Reflected::Failed(e) => return Reflected::Failed(e),
                Reflected::Aborted => return Reflected::Aborted,
            };
            let count = match word_operand(type_instruction, 1, OperandKind::LiteralInt32) {
                Ok(v) => v,
                Err(e) => return Reflected::Failed(e),
            };
            checked_product_of(size, count)
        } else if opcode == OP_TYPE_ARRAY {
            let id = match word_operand(type_instruction, 0, OperandKind::IdRef) {
                Ok(v) => v,
                Err(e) => return Reflected::Failed(e),
            };
            let size = match Reflection::size_of_id(reflect, id, fuel) {
                Reflected::Done(v) => v,
                Reflected::Failed(e) => return Reflected::Failed(e),
                Reflected::Aborted => return Reflected::Aborted,
            };
            let len_id = match word_operand(type_instruction, 1, OperandKind::IdRef) {
                Ok(v) => v,
                Err(e) => return Reflected::Failed(e),
            };
            let constant = match Reflection::find_assignment_for(&reflect.types_global_values, len_id) {
                Ok(c) => c,
                Err(e) => return Reflected::Failed(e),
            };
            let count = match word_operand(constant, 0, OperandKind::LiteralInt32) {
                Ok(v) => v,
                Err(e) => return Reflected::Failed(e),
            };
            checked_product_of(size, count)
        } else if opcode == OP_TYPE_STRUCT {
            if type_instruction.operands.len() == 0 {
                return Reflected::Done(0);
            }
            let offset = match Reflection::byte_offset_to_last_var(reflect, type_instruction) {
                Ok(v) => v,
                Err(e) => return Reflected::Failed(e),
            };
            let last = type_instruction.operands.len() - 1;
            let id = match word_operand(type_instruction, last, OperandKind::IdRef) {
                Ok(v) => v,
                Err(e) => return Reflected::Failed(e),
            };
            let size = match Reflection::size_of_id(reflect, id, fuel) {
                Reflected::Done(v) => v,
                Reflected::Failed(e) => return Reflected::Failed(e),
                Reflected::Aborted => return Reflected::Aborted,
            };
            if offset as u64 + size as u64 > u32::MAX as u64 {
                Reflected::Aborted
            } else {
                Reflected::Done(offset + size)
            }
        } else {
            Reflected::Done(0)
        }
    }

    /// The byte size of the type assigned to `id`; see `spec_size_of_id`.
    fn size_of_id(reflect: &Module, id: u32, fuel: usize) -> (r: Reflected<u32>)
        ensures
            reflected_outcome(r) == spec_size_of_id(reflect@, id, fuel as nat),
        decreases fuel, 0nat,
    {
        if fuel == 0 {
            return Reflected::Aborted;
        }
        let t = match Reflection::find_assignment_for(&reflect.types_global_values, id) {
            Ok(t) => t,
            Err(e) => return Reflected::Failed(e),
        };
        Reflection::calculate_variable_size_bytes(reflect, t, fuel - 1)
    }
}

/// `a * b`, or an abort when it does not fit in 32 bits; see `checked_product`.
fn checked_product_of(a: u32, b: u32) -> (r: Reflected<u32>)
    ensures
        reflected_outcome(r) == checked_product(a, b),
{
    assert(a as u64 * b as u64 <= u64::MAX) by (nonlinear_arith)
        requires
            a <= u32::MAX,
            b <= u32::MAX,
    ;
    if a as u64 * b as u64 > u32::MAX as u64 {
        Reflected::Aborted
    } else {
        Reflected::Done(a * b)
    }
}

/// Once a prefix of the member decorations fails, every longer prefix fails the same way.
pub proof fn lemma_max_offset_failure_persists(anns: Seq<InstructionView>, k: int, n: int)
    requires
        k <= n,
        spec_max_offset(anns, k) is Err,
    ensures
        spec_max_offset(anns, n) == spec_max_offset(anns, k),
    decreases n - k,
{
    if k < n {
        lemma_max_offset_failure_persists(anns, k, n - 1);
    }
}

} // verus!
