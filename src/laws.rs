//! Properties of reflection that hold of every module.
use vstd::prelude::*;
use crate::access::{spec_annotations_upto, spec_find_assignment, spec_find_from, spec_word};
use crate::reflection::{
    globals_name, is_selected, lemma_sets_failure_persists, spec_add_variable, spec_classify_variable,
    spec_descriptor_sets, spec_names_upto, spec_push_constant_range, spec_select_variables, spec_sets_upto,
    spec_variable_descriptor,
};
use crate::size::{spec_byte_offset_to_last_var, spec_max_offset};
use crate::types::DescriptorInfoView;
use crate::classify::{spec_array_length, spec_descriptor_type, spec_descriptor_type_for_var, spec_follow, spec_struct_type};
use crate::error::{Outcome, ReflectErrorView};
use crate::module::{InstructionView, ModuleView, Operand, OperandKind};
use crate::size::{spec_size_of_id, spec_variable_size};
use crate::spirv::{
    OP_TYPE_ACCELERATION_STRUCTURE_KHR, OP_TYPE_ARRAY, OP_TYPE_IMAGE, OP_TYPE_POINTER, OP_TYPE_RUNTIME_ARRAY,
    OP_TYPE_SAMPLED_IMAGE, OP_TYPE_SAMPLER, OP_TYPE_STRUCT, OP_VARIABLE, STORAGE_CLASS_STORAGE_BUFFER, STORAGE_CLASS_UNIFORM, STORAGE_CLASS_UNIFORM_CONSTANT,
};
use crate::types::{BindingCount, DescriptorType};

verus! {

/// The length that an `OpTypeArray` declares: the value of the constant its operand 1 names,
/// read at the width of the constant's integer type.
pub open spec fn spec_declared_length(m: ModuleView, t: InstructionView) -> Result<usize, ReflectErrorView> {
    match spec_word(t, 1, OperandKind::IdRef) {
        Err(e) => Err(e),
        Ok(len_id) => match spec_find_assignment(m.types, len_id) {
            Err(e) => Err(e),
            Ok(c) => match c.result_type {
                None => Err(ReflectErrorView::MissingResultId(c)),
                Some(cty_id) => match spec_find_assignment(m.types, cty_id) {
                    Err(e) => Err(e),
                    Ok(cty) => spec_array_length(cty, c),
                },
            },
        },
    }
}

/// `t` is an `OpTypeSampledImage` whose operand 0 names an `OpTypeImage`.
pub open spec fn is_sampled_image_of_image(m: ModuleView, t: InstructionView) -> bool {
    t.opcode == OP_TYPE_SAMPLED_IMAGE && match spec_word(t, 0, OperandKind::IdRef) {
        Ok(e) => match spec_find_assignment(m.types, e) {
            Ok(img) => img.opcode == OP_TYPE_IMAGE,
            Err(_) => false,
        },
        Err(_) => false,
    }
}

/// A runtime array always classifies as `Unbounded`, an array of declared length `n` as
/// `StaticSized(n)`, and a sampler, image, struct or acceleration structure as `One` with no
/// name, as does a sampled image over an image.
pub proof fn lemma_binding_count_by_type(m: ModuleView, t: InstructionView, sc: u32, fuel: nat)
    requires
        spec_descriptor_type(m, t, sc, fuel) is Done,
    ensures
        ({
            let d = spec_descriptor_type(m, t, sc, fuel)->Done_0;
            &&& t.opcode == OP_TYPE_RUNTIME_ARRAY ==> d.binding_count == BindingCount::Unbounded
            &&& t.opcode == OP_TYPE_ARRAY ==> spec_declared_length(m, t) is Ok && d.binding_count
                == BindingCount::StaticSized(spec_declared_length(m, t)->Ok_0)
            &&& (t.opcode == OP_TYPE_SAMPLER || t.opcode == OP_TYPE_IMAGE || t.opcode == OP_TYPE_STRUCT
                || t.opcode == OP_TYPE_ACCELERATION_STRUCTURE_KHR) ==> d.binding_count == BindingCount::One
                && d.name == Seq::<char>::empty()
            &&& is_sampled_image_of_image(m, t) ==> d.binding_count == BindingCount::One
        }),
{
    if is_sampled_image_of_image(m, t) {
        let e = spec_word(t, 0, OperandKind::IdRef)->Ok_0;
        let img = spec_find_assignment(m.types, e)->Ok_0;
        assert(fuel > 0);
        assert(spec_descriptor_type(m, img, sc, (fuel - 1) as nat) is Done);
    }
}

/// An array length is read from an integer type of width 32 or 64; any other width fails with
/// `UnexpectedIntWidth`.
pub proof fn lemma_array_length_widths(int_type: InstructionView, constant: InstructionView, width: u32)
    requires
        spec_word(int_type, 0, OperandKind::LiteralInt32) == Ok::<u32, ReflectErrorView>(width),
    ensures
        width == 32 || width == 64 ==> !(spec_array_length(int_type, constant) matches Err(
            ReflectErrorView::UnexpectedIntWidth(_),
        )),
        width == 32 ==> spec_array_length(int_type, constant) == match spec_word(
            constant,
            0,
            OperandKind::LiteralInt32,
        ) {
            Ok(v) => Ok(v as usize),
            Err(e) => Err(e),
        },
        width != 32 && width != 64 ==> spec_array_length(int_type, constant) == Err::<
            usize,
            ReflectErrorView,
        >(ReflectErrorView::UnexpectedIntWidth(width)),
{
}

/// A struct without members has byte size 0.
pub proof fn lemma_empty_struct_size(m: ModuleView, t: InstructionView, fuel: nat)
    requires
        t.opcode == OP_TYPE_STRUCT,
        t.operands.len() == 0,
    ensures
        spec_variable_size(m, t, fuel) == Outcome::Done(0u32),
{
}

/// A struct with one member has the byte size of that member's type.
pub proof fn lemma_single_member_struct_size(m: ModuleView, t: InstructionView, id: u32, fuel: nat)
    requires
        t.opcode == OP_TYPE_STRUCT,
        t.operands.len() == 1,
        t.operands[0] == Operand::IdRef(id),
    ensures
        spec_variable_size(m, t, fuel) == spec_size_of_id(m, id, fuel),
{
}

/// At version 1.3 exactly, a `BufferBlock` struct is a storage buffer and a `Block` struct is a
/// uniform or storage buffer by its storage class.
pub proof fn lemma_version_1_3_accepts_both_blocks(block: bool, sc: u32, t: InstructionView)
    ensures
        spec_struct_type((1, 3), block, true, sc, t) == Outcome::Done(DescriptorType::STORAGE_BUFFER),
        sc == STORAGE_CLASS_UNIFORM || sc == STORAGE_CLASS_UNIFORM_CONSTANT ==> spec_struct_type(
            (1, 3),
            true,
            false,
            sc,
            t,
        ) == Outcome::Done(DescriptorType::UNIFORM_BUFFER),
        sc == STORAGE_CLASS_STORAGE_BUFFER ==> spec_struct_type((1, 3), true, false, sc, t)
            == Outcome::Done(DescriptorType::STORAGE_BUFFER),
{
}

/// `v` is a variable in slot `(s, b)` whose classification has the type and count of `e`.
pub open spec fn reclassifies_as(m: ModuleView, v: InstructionView, s: u32, b: u32, e: DescriptorInfoView) -> bool {
    &&& v.opcode == OP_VARIABLE
    &&& v.result_id is Some
    &&& spec_variable_descriptor(m, v, v.result_id->0) matches Outcome::Done((s2, b2, _))
    &&& s2 == s && b2 == b
    &&& spec_classify_variable(m, v) matches Outcome::Done(d)
    &&& d.ty == e.ty && d.binding_count == e.binding_count
}

/// `v` has a result id and its slot and classification are `(s, b)` and the type and count of
/// `e`.
pub open spec fn occupies_slot(m: ModuleView, v: InstructionView, s: u32, b: u32, e: DescriptorInfoView) -> bool {
    &&& v.result_id is Some
    &&& spec_variable_descriptor(m, v, v.result_id->0) matches Outcome::Done((s2, b2, d))
    &&& s2 == s && b2 == b && d.ty == e.ty && d.binding_count == e.binding_count
}

proof fn lemma_sets_entries_occupied(
    m: ModuleView,
    vars: Seq<InstructionView>,
    names: Map<u32, String>,
    n: int,
)
    requires
        0 <= n <= vars.len(),
        spec_sets_upto(m, vars, names, n) is Done,
    ensures
        ({
            let acc = spec_sets_upto(m, vars, names, n)->Done_0;
            forall|s: u32, b: u32|
                acc.contains_key(s) && acc[s].contains_key(b) ==> exists|j: int|
                    0 <= j < n && #[trigger] occupies_slot(m, vars[j], s, b, acc[s][b])
        }),
    decreases n,
{
    if n > 0 {
        lemma_sets_entries_occupied(m, vars, names, n - 1);
        let acc0 = spec_sets_upto(m, vars, names, n - 1)->Done_0;
        let acc = spec_sets_upto(m, vars, names, n)->Done_0;
        let v = vars[n - 1];
        assert forall|s: u32, b: u32| acc.contains_key(s) && acc[s].contains_key(b) implies exists|j: int|
            0 <= j < n && #[trigger] occupies_slot(m, vars[j], s, b, acc[s][b]) by {
            match v.result_id {
                None => {
                    let j = choose|j: int| 0 <= j < n - 1 && #[trigger] occupies_slot(m, vars[j], s, b, acc0[s][b]);
                    assert(occupies_slot(m, vars[j], s, b, acc[s][b]));
                },
                Some(vid) => {
                    let (s0, b0, d) = spec_variable_descriptor(m, v, vid)->Done_0;
                    if s == s0 && b == b0 {
                        assert(occupies_slot(m, vars[n - 1], s, b, acc[s][b]));
                    } else {
                        assert(acc0.contains_key(s) && acc0[s].contains_key(b) && acc[s][b] == acc0[s][b]);
                        let j = choose|j: int| 0 <= j < n - 1 && #[trigger] occupies_slot(m, vars[j], s, b, acc0[s][b]);
                        assert(occupies_slot(m, vars[j], s, b, acc[s][b]));
                    }
                },
            }
        }
    }
}

proof fn lemma_selected_is_variable(s: Seq<InstructionView>, n: int, push_constant: bool, j: int)
    requires
        0 <= n <= s.len(),
        spec_select_variables(s, n, push_constant) is Ok,
        0 <= j < spec_select_variables(s, n, push_constant)->Ok_0.len(),
    ensures
        exists|k: int|
            #![trigger s[k]]
            0 <= k < n && s[k] == spec_select_variables(s, n, push_constant)->Ok_0[j] && s[k].opcode
                == OP_VARIABLE,
    decreases n,
{
    let vs0 = spec_select_variables(s, n - 1, push_constant)->Ok_0;
    let vs = spec_select_variables(s, n, push_constant)->Ok_0;
    if j < vs0.len() {
        lemma_selected_is_variable(s, n - 1, push_constant, j);
        let k = choose|k: int| #![trigger s[k]] 0 <= k < n - 1 && s[k] == vs0[j] && s[k].opcode == OP_VARIABLE;
        assert(vs[j] == vs0[j]);
        assert(0 <= k < n && s[k] == vs[j] && s[k].opcode == OP_VARIABLE);
    } else {
        assert(s[n - 1] == vs[j]);
    }
}

/// Every entry of the descriptor sets is the slot of a variable of the module whose own
/// classification has the entry's descriptor type and binding count.
pub proof fn lemma_descriptor_entries_reclassify(m: ModuleView, s: u32, b: u32)
    requires
        spec_descriptor_sets(m) is Done,
        spec_descriptor_sets(m)->Done_0.contains_key(s),
        spec_descriptor_sets(m)->Done_0[s].contains_key(b),
    ensures
        exists|k: int|
            0 <= k < m.types.len() && #[trigger] reclassifies_as(
                m,
                m.types[k],
                s,
                b,
                spec_descriptor_sets(m)->Done_0[s][b],
            ),
{
    let sets = spec_descriptor_sets(m)->Done_0;
    let vars = spec_select_variables(m.types, m.types.len() as int, false)->Ok_0;
    let names = spec_names_upto(m.debug_names, m.debug_names.len() as int)->Ok_0;
    lemma_sets_entries_occupied(m, vars, names, vars.len() as int);
    let j = choose|j: int| 0 <= j < vars.len() && #[trigger] occupies_slot(m, vars[j], s, b, sets[s][b]);
    lemma_selected_is_variable(m.types, m.types.len() as int, false, j);
    let k = choose|k: int| #![trigger m.types[k]] 0 <= k < m.types.len() && m.types[k] == vars[j] && m.types[k].opcode == OP_VARIABLE;
    assert(reclassifies_as(m, m.types[k], s, b, sets[s][b]));
}

/// A descriptor variable named `$Globals` keeps descriptor-set reflection from succeeding;
/// when the variables before it are in order and its own decorations and type classify, the
/// error is `BindingGlobalParameterBuffer`.
pub proof fn lemma_globals_name_fails(m: ModuleView, k: int)
    requires
        spec_select_variables(m.types, m.types.len() as int, false) is Ok,
        spec_names_upto(m.debug_names, m.debug_names.len() as int) is Ok,
        ({
            let vars = spec_select_variables(m.types, m.types.len() as int, false)->Ok_0;
            let names = spec_names_upto(m.debug_names, m.debug_names.len() as int)->Ok_0;
            &&& 0 <= k < vars.len()
            &&& vars[k].result_id is Some
            &&& names.contains_key(vars[k].result_id->0)
            &&& names[vars[k].result_id->0]@ == globals_name()
        }),
    ensures
        spec_descriptor_sets(m) !is Done,
        ({
            let vars = spec_select_variables(m.types, m.types.len() as int, false)->Ok_0;
            let names = spec_names_upto(m.debug_names, m.debug_names.len() as int)->Ok_0;
            spec_sets_upto(m, vars, names, k) is Done && spec_variable_descriptor(
                m,
                vars[k],
                vars[k].result_id->0,
            ) is Done ==> spec_descriptor_sets(m) == Outcome::<
                Map<u32, Map<u32, DescriptorInfoView>>,
            >::Failed(ReflectErrorView::BindingGlobalParameterBuffer)
        }),
{
    let vars = spec_select_variables(m.types, m.types.len() as int, false)->Ok_0;
    let names = spec_names_upto(m.debug_names, m.debug_names.len() as int)->Ok_0;
    if spec_sets_upto(m, vars, names, k) is Done {
        assert(spec_sets_upto(m, vars, names, k + 1) !is Done);
        lemma_sets_failure_persists(m, vars, names, k + 1, vars.len() as int);
    } else {
        lemma_sets_failure_persists(m, vars, names, k, vars.len() as int);
    }
}

/// Whether `i` is an `OpVariable` whose storage class operand is a selected one.
pub open spec fn is_selected_variable(i: InstructionView, push_constant: bool) -> bool {
    &&& i.opcode == OP_VARIABLE
    &&& spec_word(i, 0, OperandKind::StorageClass) matches Ok(sc)
    &&& is_selected(sc, push_constant)
}

/// How many of the first `n` instructions are selected variables.
pub open spec fn spec_count_selected(s: Seq<InstructionView>, n: int, push_constant: bool) -> nat
    decreases n,
{
    if n <= 0 {
        0
    } else {
        spec_count_selected(s, n - 1, push_constant) + if is_selected_variable(s[n - 1], push_constant) {
            1nat
        } else {
            0nat
        }
    }
}

proof fn lemma_select_counts(s: Seq<InstructionView>, n: int, push_constant: bool)
    requires
        spec_select_variables(s, n, push_constant) is Ok,
    ensures
        spec_select_variables(s, n, push_constant)->Ok_0.len() == spec_count_selected(s, n, push_constant),
    decreases n,
{
    if n > 0 {
        lemma_select_counts(s, n - 1, push_constant);
    }
}

proof fn lemma_find_fails_unassigned(s: Seq<InstructionView>, id: u32, k: int)
    ensures
        spec_find_from(s, id, k) is Err ==> spec_find_from(s, id, k) == Err::<InstructionView, ReflectErrorView>(
            ReflectErrorView::UnassignedResultId(id),
        ),
    decreases s.len() - k,
{
    if 0 <= k < s.len() {
        lemma_find_fails_unassigned(s, id, k + 1);
    }
}

/// Errors that only operand shapes cause.
pub open spec fn is_operand_error(e: ReflectErrorView) -> bool {
    e is OperandError || e is OperandIndexError
}

proof fn lemma_annotation_errors(s: Seq<InstructionView>, id: u32, n: int)
    ensures
        spec_annotations_upto(s, id, n) matches Err(e) ==> is_operand_error(e),
    decreases n,
{
    if n > 0 {
        lemma_annotation_errors(s, id, n - 1);
    }
}

proof fn lemma_max_offset_errors(anns: Seq<InstructionView>, n: int)
    ensures
        spec_max_offset(anns, n) matches Err(e) ==> is_operand_error(e),
    decreases n,
{
    if n > 0 {
        lemma_max_offset_errors(anns, n - 1);
    }
}

proof fn lemma_size_not_too_many(m: ModuleView, t: InstructionView, fuel: nat)
    ensures
        spec_variable_size(m, t, fuel) != Outcome::<u32>::Failed(ReflectErrorView::TooManyPushConstants),
    decreases fuel, 1nat,
{
    if t.opcode == OP_TYPE_STRUCT && t.operands.len() > 0 {
        if let Some(id) = t.result_id {
            lemma_annotation_errors(m.annotations, id, m.annotations.len() as int);
            if let Ok(anns) = crate::access::spec_annotations_for(m.annotations, id) {
                lemma_max_offset_errors(anns, anns.len() as int);
            }
        }
        assert(spec_byte_offset_to_last_var(m, t) matches Err(e) ==> is_operand_error(e)
            || e is MissingResultId);
    }
    if let Ok(id) = spec_word(t, 0, OperandKind::IdRef) {
        lemma_size_of_id_not_too_many(m, id, fuel);
    }
    if let Ok(id) = spec_word(t, 1, OperandKind::IdRef) {
        lemma_find_fails_unassigned(m.types, id, 0);
    }
    if t.operands.len() > 0 {
        if let Ok(id) = spec_word(t, t.operands.len() - 1, OperandKind::IdRef) {
            lemma_size_of_id_not_too_many(m, id, fuel);
        }
    }
}

proof fn lemma_size_of_id_not_too_many(m: ModuleView, id: u32, fuel: nat)
    ensures
        spec_size_of_id(m, id, fuel) != Outcome::<u32>::Failed(ReflectErrorView::TooManyPushConstants),
    decreases fuel, 0nat,
{
    lemma_find_fails_unassigned(m.types, id, 0);
    if fuel > 0 {
        if let Ok(t) = spec_find_assignment(m.types, id) {
            lemma_size_not_too_many(m, t, (fuel - 1) as nat);
        }
    }
}

/// When every `OpVariable` has a storage class operand, the push-constant range is none exactly
/// when no variable has the `PushConstant` storage class, and `TooManyPushConstants` exactly
/// when two or more do.
pub proof fn lemma_push_constant_presence(m: ModuleView)
    requires
        spec_select_variables(m.types, m.types.len() as int, true) is Ok,
    ensures
        (spec_push_constant_range(m) == Outcome::Done(None::<crate::types::PushConstantInfo>))
            <==> spec_count_selected(m.types, m.types.len() as int, true) == 0,
        (spec_push_constant_range(m) == Outcome::<Option<crate::types::PushConstantInfo>>::Failed(
            ReflectErrorView::TooManyPushConstants,
        )) <==> spec_count_selected(m.types, m.types.len() as int, true) >= 2,
{
    lemma_select_counts(m.types, m.types.len() as int, true);
    let vars = spec_select_variables(m.types, m.types.len() as int, true)->Ok_0;
    if vars.len() == 1 {
        if let Some(tid) = vars[0].result_type {
            lemma_find_fails_unassigned(m.types, tid, 0);
            if let Ok(t) = spec_find_assignment(m.types, tid) {
                lemma_size_not_too_many(m, t, m.types.len());
                if let Ok(elem) = spec_word(t, 1, OperandKind::IdRef) {
                    lemma_find_fails_unassigned(m.types, elem, 0);
                    if let Ok(p) = spec_find_assignment(m.types, elem) {
                        lemma_size_not_too_many(m, p, m.types.len());
                    }
                }
            }
        }
    }
}

/// The position of the first instruction of `s` at or after `k` whose result id is `id`, or
/// `s.len()` when there is none.
pub open spec fn assignment_position(s: Seq<InstructionView>, id: u32, k: int) -> int
    decreases s.len() - k,
{
    if k < 0 || k >= s.len() {
        s.len() as int
    } else if s[k].result_id == Some(id) {
        k
    } else {
        assignment_position(s, id, k + 1)
    }
}

proof fn lemma_find_at_position(s: Seq<InstructionView>, id: u32, k: int)
    requires
        0 <= k,
    ensures
        spec_find_from(s, id, k) is Ok ==> k <= assignment_position(s, id, k) < s.len()
            && spec_find_from(s, id, k) == Ok::<InstructionView, ReflectErrorView>(
            s[assignment_position(s, id, k)],
        ),
        spec_find_from(s, id, k) is Err ==> assignment_position(s, id, k) == s.len(),
    decreases s.len() - k,
{
    if k < s.len() {
        lemma_find_at_position(s, id, k + 1);
    }
}

/// Type instructions are declared in order: every id operand of an instruction of the type
/// section names an earlier instruction of that section, or none of it.
pub open spec fn declared_in_order(m: ModuleView) -> bool {
    forall|k: int, j: int|
        0 <= k < m.types.len() && 0 <= j < m.types[k].operands.len() && #[trigger] m.types[k].operands[j]
            is IdRef ==> {
            let p = assignment_position(m.types, m.types[k].operands[j]->IdRef_0, 0);
            p < k || p == m.types.len()
        }
}

proof fn lemma_reference_is_earlier(m: ModuleView, k: int, j: int, kind: OperandKind)
    requires
        declared_in_order(m),
        0 <= k < m.types.len(),
        0 <= j,
        kind == OperandKind::IdRef,
        spec_word(m.types[k], j, kind) is Ok,
    ensures
        ({
            let id = spec_word(m.types[k], j, kind)->Ok_0;
            &&& spec_find_assignment(m.types, id) is Ok ==> 0 <= assignment_position(m.types, id, 0) < k
                && spec_find_assignment(m.types, id) == Ok::<InstructionView, ReflectErrorView>(
                m.types[assignment_position(m.types, id, 0)],
            )
        }),
{
    let id = spec_word(m.types[k], j, kind)->Ok_0;
    assert(m.types[k].operands[j] is IdRef);
    lemma_find_at_position(m.types, id, 0);
}

/// On a module declared in order, classifying its `k`-th type instruction gives the same
/// outcome with any fuel above `k`: running out of fuel needs a type cycle.
pub proof fn lemma_classification_fuel_enough(m: ModuleView, k: int, sc: u32, f1: nat, f2: nat)
    requires
        declared_in_order(m),
        0 <= k < m.types.len(),
        k < f1 <= f2,
    ensures
        spec_descriptor_type(m, m.types[k], sc, f1) == spec_descriptor_type(m, m.types[k], sc, f2),
    decreases f1,
{
    let t = m.types[k];
    if t.opcode == OP_TYPE_ARRAY || t.opcode == OP_TYPE_RUNTIME_ARRAY || t.opcode == OP_TYPE_SAMPLED_IMAGE {
        if spec_word(t, 0, OperandKind::IdRef) is Ok {
            lemma_reference_is_earlier(m, k, 0, OperandKind::IdRef);
            let id = spec_word(t, 0, OperandKind::IdRef)->Ok_0;
            if spec_find_assignment(m.types, id) is Ok {
                let p = assignment_position(m.types, id, 0);
                lemma_classification_fuel_enough(m, p, sc, (f1 - 1) as nat, (f2 - 1) as nat);
            }
            assert(spec_follow(m, id, sc, f1) == spec_follow(m, id, sc, f2));
        }
    } else if t.opcode == OP_TYPE_POINTER {
        if spec_word(t, 1, OperandKind::IdRef) is Ok {
            lemma_reference_is_earlier(m, k, 1, OperandKind::IdRef);
            let id = spec_word(t, 1, OperandKind::IdRef)->Ok_0;
            if spec_find_assignment(m.types, id) is Ok {
                let p = assignment_position(m.types, id, 0);
                lemma_classification_fuel_enough(m, p, sc, (f1 - 1) as nat, (f2 - 1) as nat);
            }
            assert(spec_follow(m, id, sc, f1) == spec_follow(m, id, sc, f2));
        }
    }
}

/// On a module declared in order, the byte size of its `k`-th type instruction is the same
/// with any fuel above `k`.
pub proof fn lemma_size_fuel_enough(m: ModuleView, k: int, f1: nat, f2: nat)
    requires
        declared_in_order(m),
        0 <= k < m.types.len(),
        k < f1 <= f2,
    ensures
        spec_variable_size(m, m.types[k], f1) == spec_variable_size(m, m.types[k], f2),
    decreases f1,
{
    let t = m.types[k];
    let j = if t.opcode == OP_TYPE_STRUCT { t.operands.len() - 1 } else { 0 };
    if t.operands.len() > 0 && spec_word(t, j, OperandKind::IdRef) is Ok {
        lemma_reference_is_earlier(m, k, j, OperandKind::IdRef);
        let id = spec_word(t, j, OperandKind::IdRef)->Ok_0;
        if spec_find_assignment(m.types, id) is Ok {
            let p = assignment_position(m.types, id, 0);
            lemma_size_fuel_enough(m, p, (f1 - 1) as nat, (f2 - 1) as nat);
        }
        assert(spec_size_of_id(m, id, f1) == spec_size_of_id(m, id, f2));
    }
}

/// On a module declared in order, the fuel that reflection gives (the number of type
/// instructions) is enough: more fuel changes neither a classification nor a byte size.
pub proof fn lemma_reflection_fuel_enough(m: ModuleView, id: u32, t: InstructionView, sc: u32, f: nat)
    requires
        declared_in_order(m),
        m.types.len() <= f,
        m.types.contains(t),
    ensures
        spec_descriptor_type_for_var(m, id, sc, m.types.len()) == spec_descriptor_type_for_var(m, id, sc, f),
        spec_variable_size(m, t, m.types.len()) == spec_variable_size(m, t, f),
{
    lemma_find_at_position(m.types, id, 0);
    if spec_find_assignment(m.types, id) is Ok {
        let p = assignment_position(m.types, id, 0);
        lemma_classification_fuel_enough(m, p, sc, m.types.len(), f);
    }
    let k = choose|k: int| 0 <= k < m.types.len() && m.types[k] == t;
    lemma_size_fuel_enough(m, k, m.types.len(), f);
}

} // verus!
