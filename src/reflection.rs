//! The reflection entry points over a parsed module.
use vstd::prelude::*;
use vstd::string::StringExecFns;
use std::collections::BTreeMap;
use vstd::std_specs::btree::increasing_seq;
use vstd::std_specs::cmp::OrdSpec;
use crate::access::{
    lemma_annotations_failure_persists, refs_view, spec_annotations_for, spec_find_assignment, spec_string,
    spec_word, string_operand, word_operand,
};
use crate::classify::spec_descriptor_type_for_var;
use crate::error::{outcome_of, reflected_outcome, result_view, Outcome, Reflected, ReflectError, ReflectErrorView};
use crate::module::{instructions_view, Instruction, InstructionView, Module, ModuleView, Operand, OperandKind};
use crate::size::spec_variable_size;
use crate::spirv::{
    DECORATION_BINDING, DECORATION_DESCRIPTOR_SET, EXECUTION_MODE_LOCAL_SIZE, EXECUTION_MODE_LOCAL_SIZE_HINT,
    OP_EXECUTION_MODE, OP_NAME, OP_TYPE_POINTER, OP_VARIABLE, STORAGE_CLASS_PUSH_CONSTANT,
    STORAGE_CLASS_STORAGE_BUFFER, STORAGE_CLASS_UNIFORM, STORAGE_CLASS_UNIFORM_CONSTANT,
};
use crate::types::{DescriptorInfo, DescriptorInfoView, PushConstantInfo};

verus! {

/// A parsed SPIR-V module that reflection reads.
pub struct Reflection(pub Module);

/// Storage classes of variables bound through descriptor sets.
pub open spec fn is_descriptor_class(sc: u32) -> bool {
    sc == STORAGE_CLASS_UNIFORM || sc == STORAGE_CLASS_UNIFORM_CONSTANT || sc == STORAGE_CLASS_STORAGE_BUFFER
}

/// Whether a variable of storage class `sc` is selected: push-constant variables when
/// `push_constant`, descriptor variables otherwise.
pub open spec fn is_selected(sc: u32, push_constant: bool) -> bool {
    if push_constant {
        sc == STORAGE_CLASS_PUSH_CONSTANT
    } else {
        is_descriptor_class(sc)
    }
}

/// The selected `OpVariable`s among the first `n` instructions, in order; a variable without a
/// storage class operand 0 fails.
pub open spec fn spec_select_variables(s: Seq<InstructionView>, n: int, push_constant: bool) -> Result<
    Seq<InstructionView>,
    ReflectErrorView,
>
    decreases n,
{
    if n <= 0 {
        Ok(Seq::empty())
    } else {
        match spec_select_variables(s, n - 1, push_constant) {
            Err(e) => Err(e),
            Ok(acc) => if s[n - 1].opcode != OP_VARIABLE {
                Ok(acc)
            } else {
                match spec_word(s[n - 1], 0, OperandKind::StorageClass) {
                    Err(e) => Err(e),
                    Ok(sc) => if is_selected(sc, push_constant) {
                        Ok(acc.push(s[n - 1]))
                    } else {
                        Ok(acc)
                    },
                }
            },
        }
    }
}

/// The debug names of the first `n` instructions: each `OpName` maps its target id (operand
/// 0) to its string (operand 1), a later name replacing an earlier one.
pub open spec fn spec_names_upto(s: Seq<InstructionView>, n: int) -> Result<Map<u32, String>, ReflectErrorView>
    decreases n,
{
    if n <= 0 {
        Ok(Map::empty())
    } else {
        match spec_names_upto(s, n - 1) {
            Err(e) => Err(e),
            Ok(acc) => if s[n - 1].opcode != OP_NAME {
                Ok(acc)
            } else {
                match spec_word(s[n - 1], 0, OperandKind::IdRef) {
                    Err(e) => Err(e),
                    Ok(id) => match spec_string(s[n - 1], 1) {
                        Err(e) => Err(e),
                        Ok(name) => Ok(acc.insert(id, name)),
                    },
                }
            },
        }
    }
}

/// The `DescriptorSet` and `Binding` values that the first `n` annotations give a variable:
/// an annotation counts when it has at least 3 operands, operand 1 a decoration and operand 2
/// a 32-bit literal. `None` when either is given twice (a broken assertion).
pub open spec fn spec_slots(anns: Seq<InstructionView>, n: int) -> Option<(Option<u32>, Option<u32>)>
    decreases n,
{
    if n <= 0 {
        Some((None, None))
    } else {
        match spec_slots(anns, n - 1) {
            None => None,
            Some(st) => {
                let a = anns[n - 1];
                if a.operands.len() < 3 {
                    Some(st)
                } else {
                    match a.operands[1] {
                        Operand::Decoration(d) => match a.operands[2] {
                            Operand::LiteralInt32(v) => if d == DECORATION_DESCRIPTOR_SET {
                                if st.0 is Some {
                                    None
                                } else {
                                    Some((Some(v), st.1))
                                }
                            } else if d == DECORATION_BINDING {
                                if st.1 is Some {
                                    None
                                } else {
                                    Some((st.0, Some(v)))
                                }
                            } else {
                                Some(st)
                            },
                            _ => Some(st),
                        },
                        _ => Some(st),
                    }
                }
            },
        }
    }
}

/// The classification of a variable: its pointer type (result type) classified for its
/// storage class (operand 0).
pub open spec fn spec_classify_variable(m: ModuleView, v: InstructionView) -> Outcome<DescriptorInfoView> {
    match spec_word(v, 0, OperandKind::StorageClass) {
        Err(e) => Outcome::Failed(e),
        Ok(sc) => match v.result_type {
            None => Outcome::Failed(ReflectErrorView::VariableWithoutReturnType(v)),
            Some(tid) => spec_descriptor_type_for_var(m, tid, sc, m.types.len()),
        },
    }
}

/// The slot `(set, binding)` and classification of a descriptor variable `v` whose result id
/// is `vid`, before its name is attached.
pub open spec fn spec_variable_descriptor(m: ModuleView, v: InstructionView, vid: u32) -> Outcome<
    (u32, u32, DescriptorInfoView),
> {
    match spec_annotations_for(m.annotations, vid) {
        Err(e) => Outcome::Failed(e),
        Ok(anns) => match spec_slots(anns, anns.len() as int) {
            None => Outcome::Aborted,
            Some((set, binding)) => match set {
                None => Outcome::Failed(ReflectErrorView::MissingSetDecoration(v)),
                Some(s) => match binding {
                    None => Outcome::Failed(ReflectErrorView::MissingBindingDecoration(v)),
                    Some(b) => match spec_classify_variable(m, v) {
                        Outcome::Done(d) => Outcome::Done((s, b, d)),
                        Outcome::Failed(e) => Outcome::Failed(e),
                        Outcome::Aborted => Outcome::Aborted,
                    },
                },
            },
        },
    }
}

/// The name of the global parameter buffer, which reflection refuses.
pub open spec fn globals_name() -> Seq<char> {
    "$Globals"@
}

pub open spec fn with_name(d: DescriptorInfoView, name: Seq<char>) -> DescriptorInfoView {
    DescriptorInfoView { ty: d.ty, binding_count: d.binding_count, name }
}

/// The descriptor sets `acc` with variable `v` added: a variable without a result id is
/// skipped; one named `$Globals` fails; a second variable in one slot aborts.
pub open spec fn spec_add_variable(
    m: ModuleView,
    names: Map<u32, String>,
    acc: Map<u32, Map<u32, DescriptorInfoView>>,
    v: InstructionView,
) -> Outcome<Map<u32, Map<u32, DescriptorInfoView>>> {
    match v.result_id {
        None => Outcome::Done(acc),
        Some(vid) => match spec_variable_descriptor(m, v, vid) {
            Outcome::Failed(e) => Outcome::Failed(e),
            Outcome::Aborted => Outcome::Aborted,
            Outcome::Done((s, b, d)) => if names.contains_key(vid) && names[vid]@ == globals_name() {
                Outcome::Failed(ReflectErrorView::BindingGlobalParameterBuffer)
            } else {
                let named = if names.contains_key(vid) {
                    with_name(d, names[vid]@)
                } else {
                    d
                };
                let inner = if acc.contains_key(s) {
                    acc[s]
                } else {
                    Map::empty()
                };
                if inner.contains_key(b) {
                    Outcome::Aborted
                } else {
                    Outcome::Done(acc.insert(s, inner.insert(b, named)))
                }
            },
        },
    }
}

/// The descriptor sets of the first `n` variables of `vars`.
pub open spec fn spec_sets_upto(
    m: ModuleView,
    vars: Seq<InstructionView>,
    names: Map<u32, String>,
    n: int,
) -> Outcome<Map<u32, Map<u32, DescriptorInfoView>>>
    decreases n,
{
    if n <= 0 {
        Outcome::Done(Map::empty())
    } else {
        match spec_sets_upto(m, vars, names, n - 1) {
            Outcome::Done(acc) => spec_add_variable(m, names, acc, vars[n - 1]),
            other => other,
        }
    }
}

/// The descriptor sets of a module: every descriptor variable (storage class `Uniform`,
/// `UniformConstant` or `StorageBuffer`) in the slot its decorations give, with its
/// classification and debug name.
pub open spec fn spec_descriptor_sets(m: ModuleView) -> Outcome<Map<u32, Map<u32, DescriptorInfoView>>> {
    match spec_select_variables(m.types, m.types.len() as int, false) {
        Err(e) => Outcome::Failed(e),
        Ok(vars) => match spec_names_upto(m.debug_names, m.debug_names.len() as int) {
            Err(e) => Outcome::Failed(e),
            Ok(names) => spec_sets_upto(m, vars, names, vars.len() as int),
        },
    }
}

/// The push-constant range of a module: none without a push-constant variable, an error with
/// more than one, else offset 0 and the byte size of the variable's pointee type.
pub open spec fn spec_push_constant_range(m: ModuleView) -> Outcome<Option<PushConstantInfo>> {
    match spec_select_variables(m.types, m.types.len() as int, true) {
        Err(e) => Outcome::Failed(e),
        Ok(vars) => if vars.len() > 1 {
            Outcome::Failed(ReflectErrorView::TooManyPushConstants)
        } else if vars.len() == 0 {
            Outcome::Done(None)
        } else {
            match vars[0].result_type {
                None => Outcome::Aborted,
                Some(tid) => match spec_find_assignment(m.types, tid) {
                    Err(e) => Outcome::Failed(e),
                    Ok(t) => if t.opcode == OP_TYPE_POINTER {
                        match spec_word(t, 0, OperandKind::StorageClass) {
                            Err(e) => Outcome::Failed(e),
                            Ok(psc) => if psc != STORAGE_CLASS_PUSH_CONSTANT {
                                Outcome::Aborted
                            } else {
                                match spec_word(t, 1, OperandKind::IdRef) {
                                    Err(e) => Outcome::Failed(e),
                                    Ok(elem) => match spec_find_assignment(m.types, elem) {
                                        Err(e) => Outcome::Failed(e),
                                        Ok(pointee) => spec_push_constant_of_size(m, pointee),
                                    },
                                }
                            },
                        }
                    } else {
                        spec_push_constant_of_size(m, t)
                    },
                },
            }
        },
    }
}

pub open spec fn spec_push_constant_of_size(m: ModuleView, t: InstructionView) -> Outcome<
    Option<PushConstantInfo>,
> {
    match spec_variable_size(m, t, m.types.len()) {
        Outcome::Done(size) => Outcome::Done(Some(PushConstantInfo { offset: 0, size })),
        Outcome::Failed(e) => Outcome::Failed(e),
        Outcome::Aborted => Outcome::Aborted,
    }
}

/// The workgroup size that an execution-mode instruction declares: `OpExecutionMode` with
/// operands `LocalSize` or `LocalSizeHint` and three 32-bit literals after its entry point.
pub open spec fn spec_local_size(i: InstructionView) -> Option<(u32, u32, u32)> {
    if i.opcode == OP_EXECUTION_MODE && i.operands.len() == 5 {
        match (i.operands[1], i.operands[2], i.operands[3], i.operands[4]) {
            (
                Operand::ExecutionMode(mode),
                Operand::LiteralInt32(x),
                Operand::LiteralInt32(y),
                Operand::LiteralInt32(z),
            ) => if mode == EXECUTION_MODE_LOCAL_SIZE || mode == EXECUTION_MODE_LOCAL_SIZE_HINT {
                Some((x, y, z))
            } else {
                None
            },
            _ => None,
        }
    } else {
        None
    }
}

/// The first workgroup size declared at or after position `k`.
pub open spec fn spec_group_size_from(s: Seq<InstructionView>, k: int) -> Option<(u32, u32, u32)>
    decreases s.len() - k,
{
    if k < 0 || k >= s.len() {
        None
    } else {
        match spec_local_size(s[k]) {
            Some(t) => Some(t),
            None => spec_group_size_from(s, k + 1),
        }
    }
}

pub open spec fn sets_view(r: BTreeMap<u32, BTreeMap<u32, DescriptorInfo>>) -> Map<
    u32,
    Map<u32, DescriptorInfoView>,
> {
    r@.map_values(|inner: BTreeMap<u32, DescriptorInfo>| inner@.map_values(|d: DescriptorInfo| d@))
}

impl Reflection {
    pub fn new(module: Module) -> (r: Self)
        ensures
            r.0 == module,
    {
        Reflection(module)
    }

    /// The workgroup size of the first `OpExecutionMode` that declares `LocalSize` or
    /// `LocalSizeHint` with three 32-bit literals; other execution modes are skipped.
    pub fn get_compute_group_size(&self) -> (r: Option<(u32, u32, u32)>)
        ensures
            r == spec_group_size_from(self.0@.execution_modes, 0),
    {
        let ghost s = self.0@.execution_modes;
        let modes = &self.0.execution_modes;
        let mut k: usize = 0;
        while k < modes.len()
            invariant
                k <= modes@.len(),
                s == instructions_view(modes@),
                s == self.0@.execution_modes,
                spec_group_size_from(s, 0) == spec_group_size_from(s, k as int),
            decreases modes@.len() - k,
        {
            let inst = &modes[k];
            if inst.opcode == OP_EXECUTION_MODE && inst.operands.len() == 5 {
                if let Operand::ExecutionMode(mode) = &inst.operands[1] {
                    if let Operand::LiteralInt32(x) = &inst.operands[2] {
                        if let Operand::LiteralInt32(y) = &inst.operands[3] {
                            if let Operand::LiteralInt32(z) = &inst.operands[4] {
                                if *mode == EXECUTION_MODE_LOCAL_SIZE || *mode
                                    == EXECUTION_MODE_LOCAL_SIZE_HINT {
                                    return Some((*x, *y, *z));
                                }
                            }
                        }
                    }
                }
            }
            k = k + 1;
        }
        None
    }
}

impl Reflection {
    /// The descriptor sets of the module, by set index and then binding index; see
    /// `spec_descriptor_sets`. Inputs on which reflection would abort (a slot or a decoration
    /// given twice, a broken type assertion, a cyclic type) are excluded; `descriptor_sets_abort_free`
    /// tells them apart.
    pub fn get_descriptor_sets(&self) -> (r: Result<BTreeMap<u32, BTreeMap<u32, DescriptorInfo>>, ReflectError>)
        requires
            spec_descriptor_sets(self.0@) !is Aborted,
        ensures
            match r {
                Ok(sets) => spec_descriptor_sets(self.0@) == Outcome::Done(sets_view(sets)),
                Err(e) => spec_descriptor_sets(self.0@) == Outcome::<
                    Map<u32, Map<u32, DescriptorInfoView>>,
                >::Failed(e@),
            },
    {
        match self.reflect_descriptor_sets() {
            Reflected::Done(sets) => Ok(sets),
            Reflected::Failed(e) => Err(e),
            Reflected::Aborted => unreached(),
        }
    }

    /// Whether reflecting the descriptor sets of the module runs without an abort, that is,
    /// whether `get_descriptor_sets` may be called.
    pub fn descriptor_sets_abort_free(&self) -> (r: bool)
        ensures
            r == (spec_descriptor_sets(self.0@) !is Aborted),
    {
        match self.reflect_descriptor_sets() {
            Reflected::Aborted => false,
            _ => true,
        }
    }

    /// The descriptor sets of the module, with aborts reported; see `spec_descriptor_sets`.
    fn reflect_descriptor_sets(&self) -> (r: Reflected<BTreeMap<u32, BTreeMap<u32, DescriptorInfo>>>)
        ensures
            match r {
                Reflected::Done(sets) => spec_descriptor_sets(self.0@) == Outcome::Done(sets_view(sets)),
                Reflected::Failed(e) => spec_descriptor_sets(self.0@) == Outcome::<
                    Map<u32, Map<u32, DescriptorInfoView>>,
                >::Failed(e@),
                Reflected::Aborted => spec_descriptor_sets(self.0@) is Aborted,
            },
    {
        let ghost m = self.0@;
        let vars = match select_variables(&self.0.types_global_values, false) {
            Ok(v) => v,
            Err(e) => return Reflected::Failed(e),
        };
        let names = match name_table(&self.0.debug_names) {
            Ok(t) => t,
            Err(e) => return Reflected::Failed(e),
        };
        let ghost vs = refs_view(vars@);
        let ghost nm = names@;
        let mut sets: BTreeMap<u32, BTreeMap<u32, DescriptorInfo>> = BTreeMap::new();
        assert(sets_view(sets) =~= Map::<u32, Map<u32, DescriptorInfoView>>::empty());
        let mut k: usize = 0;
        while k < vars.len()
            invariant
                k <= vars@.len(),
                vs == refs_view(vars@),
                nm == names@,
                m == self.0@,
                spec_descriptor_sets(m) == spec_sets_upto(m, vs, nm, vs.len() as int),
                spec_sets_upto(m, vs, nm, k as int) == Outcome::Done(sets_view(sets)),
            decreases vars@.len() - k,
        {
            let var = vars[k];
            match self.add_variable(&names, &mut sets, var) {
                Reflected::Done(()) => {},
                Reflected::Failed(e) => {
                    proof {
                        lemma_sets_failure_persists(m, vs, nm, k as int + 1, vs.len() as int);
                    }
                    return Reflected::Failed(e);
                },
                Reflected::Aborted => {
                    proof {
                        lemma_sets_failure_persists(m, vs, nm, k as int + 1, vs.len() as int);
                    }
                    return Reflected::Aborted;
                },
            }
            k = k + 1;
        }
        Reflected::Done(sets)
    }

    /// Adds one descriptor variable to `sets`; see `spec_add_variable`.
    fn add_variable(
        &self,
        names: &BTreeMap<u32, String>,
        sets: &mut BTreeMap<u32, BTreeMap<u32, DescriptorInfo>>,
        var: &Instruction,
    ) -> (r: Reflected<()>)
        ensures
            match r {
                Reflected::Done(()) => spec_add_variable(self.0@, names@, sets_view(*old(sets)), var@)
                    == Outcome::Done(sets_view(*final(sets))),
                Reflected::Failed(e) => spec_add_variable(self.0@, names@, sets_view(*old(sets)), var@)
                    == Outcome::<Map<u32, Map<u32, DescriptorInfoView>>>::Failed(e@),
                Reflected::Aborted => spec_add_variable(self.0@, names@, sets_view(*old(sets)), var@) is Aborted,
            },
    {
        let var_id = match var.result_id {
            Some(id) => id,
            None => return Reflected::Done(()),
        };
        let annotations = match Reflection::find_annotations_for_id(&self.0.annotations, var_id) {
            Ok(v) => v,
            Err(e) => return Reflected::Failed(e),
        };
        let (set, binding) = match decoration_slots(&annotations) {
            Some(slots) => slots,
            None => return Reflected::Aborted,
        };
        let set = match set {
            Some(s) => s,
            None => return Reflected::Failed(ReflectError::MissingSetDecoration(var.clone())),
        };
        let binding = match binding {
            Some(b) => b,
            None => return Reflected::Failed(ReflectError::MissingBindingDecoration(var.clone())),
        };
        let storage_class = match word_operand(var, 0, OperandKind::StorageClass) {
            Ok(v) => v,
            Err(e) => return Reflected::Failed(e),
        };
        let type_id = match var.result_type {
            Some(t) => t,
            None => return Reflected::Failed(ReflectError::VariableWithoutReturnType(var.clone())),
        };
        let fuel = self.0.types_global_values.len();
        let mut info = match self.get_descriptor_type_for_var(type_id, storage_class, fuel) {
            Reflected::Done(d) => d,
            Reflected::Failed(e) => return Reflected::Failed(e),
            Reflected::Aborted => return Reflected::Aborted,
        };
        match names.get(&var_id) {
            Some(name) => {
                if is_globals_name(name) {
                    return Reflected::Failed(ReflectError::BindingGlobalParameterBuffer);
                }
                info.name = name.clone();
            },
            None => {},
        }
        let ghost old_view = sets_view(*sets);
        let mut inner = match sets.remove(&set) {
            Some(i) => i,
            None => BTreeMap::new(),
        };
        let ghost inner_before = inner@.map_values(|d: DescriptorInfo| d@);
        assert(inner_before =~= (if old_view.contains_key(set) {
            old_view[set]
        } else {
            Map::<u32, DescriptorInfoView>::empty()
        }));
        if inner.contains_key(&binding) {
            return Reflected::Aborted;
        }
        inner.insert(binding, info);
        assert(inner@.map_values(|d: DescriptorInfo| d@) =~= inner_before.insert(binding, info@));
        sets.insert(set, inner);
        assert(sets_view(*sets) =~= old_view.insert(set, inner_before.insert(binding, info@)));
        Reflected::Done(())
    }

    /// The push-constant range of the module; see `spec_push_constant_range`. Inputs on which
    /// reflection would abort (a push-constant variable without a type, or whose pointer type
    /// has another storage class; a cyclic type; a size past 32 bits) are excluded;
    /// `push_constant_range_abort_free` tells them apart.
    pub fn get_push_constant_range(&self) -> (r: Result<Option<PushConstantInfo>, ReflectError>)
        requires
            spec_push_constant_range(self.0@) !is Aborted,
        ensures
            outcome_of(r) == spec_push_constant_range(self.0@),
    {
        match self.reflect_push_constant_range() {
            Reflected::Done(v) => Ok(v),
            Reflected::Failed(e) => Err(e),
            Reflected::Aborted => unreached(),
        }
    }

    /// Whether reflecting the push-constant range runs without an abort, that is, whether
    /// `get_push_constant_range` may be called.
    pub fn push_constant_range_abort_free(&self) -> (r: bool)
        ensures
            r == (spec_push_constant_range(self.0@) !is Aborted),
    {
        match self.reflect_push_constant_range() {
            Reflected::Aborted => false,
            _ => true,
        }
    }

    /// The push-constant range, with aborts reported; see `spec_push_constant_range`.
    fn reflect_push_constant_range(&self) -> (r: Reflected<Option<PushConstantInfo>>)
        ensures
            reflected_outcome(r) == spec_push_constant_range(self.0@),
    {
        let types = &self.0.types_global_values;
        let push_constants = match select_variables(types, true) {
            Ok(v) => v,
            Err(e) => return Reflected::Failed(e),
        };
        if push_constants.len() > 1 {
            return Reflected::Failed(ReflectError::TooManyPushConstants);
        }
        if push_constants.len() == 0 {
            return Reflected::Done(None);
        }
        let push_constant = push_constants[0];
        let type_id = match push_constant.result_type {
            Some(t) => t,
            None => return Reflected::Aborted,
        };
        let instruction = match Reflection::find_assignment_for(types, type_id) {
            Ok(i) => i,
            Err(e) => return Reflected::Failed(e),
        };
        let instruction = if instruction.opcode == OP_TYPE_POINTER {
            let pointer_class = match word_operand(instruction, 0, OperandKind::StorageClass) {
                Ok(c) => c,
                Err(e) => return Reflected::Failed(e),
            };
            if pointer_class != STORAGE_CLASS_PUSH_CONSTANT {
                return Reflected::Aborted;
            }
            let element_type_id = match word_operand(instruction, 1, OperandKind::IdRef) {
                Ok(v) => v,
                Err(e) => return Reflected::Failed(e),
            };
            match Reflection::find_assignment_for(types, element_type_id) {
                Ok(i) => i,
                Err(e) => return Reflected::Failed(e),
            }
        } else {
            instruction
        };
        match Reflection::calculate_variable_size_bytes(&self.0, instruction, types.len()) {
            Reflected::Done(size) => Reflected::Done(Some(PushConstantInfo { offset: 0, size })),
            Reflected::Failed(e) => Reflected::Failed(e),
            Reflected::Aborted => Reflected::Aborted,
        }
    }
}

/// Whether slot `a` comes before slot `b`: by set index, then by binding index.
pub open spec fn slot_before(a: (u32, u32), b: (u32, u32)) -> bool {
    a.0 < b.0 || (a.0 == b.0 && a.1 < b.1)
}

/// The occupied slots `(set, binding)` of `sets`, in the order the maps yield them: ascending
/// by set index, then by binding index, each slot once.
pub fn descriptor_slots(sets: &BTreeMap<u32, BTreeMap<u32, DescriptorInfo>>) -> (r: Vec<(u32, u32)>)
    ensures
        forall|i: int, j: int| 0 <= i < j < r@.len() ==> slot_before(r@[i], r@[j]),
        forall|i: int|
            0 <= i < r@.len() ==> sets@.contains_key(#[trigger] r@[i].0) && sets@[r@[i].0]@.contains_key(
                r@[i].1,
            ),
        forall|s: u32, b: u32|
            sets@.contains_key(s) && #[trigger] sets@[s]@.contains_key(b) ==> r@.contains((s, b)),
{
    broadcast use vstd::std_specs::btree::axiom_increasing_seq_meaning;

    let mut r: Vec<(u32, u32)> = Vec::new();
    for kv in it: sets.iter()
        invariant
            increasing_seq(it.seq().map_values(|kv: (&u32, &BTreeMap<u32, DescriptorInfo>)| *kv.0)),
            forall|i: int| 0 <= i < it.seq().len() ==> sets@.contains_key(*#[trigger] it.seq()[i].0)
                && sets@[*it.seq()[i].0] == *it.seq()[i].1,
            forall|i: int, j: int| 0 <= i < j < r@.len() ==> slot_before(r@[i], r@[j]),
            it.index() == 0 ==> r@.len() == 0,
            forall|k: u32| #[trigger] sets@.contains_key(k) ==> exists|j: int|
                0 <= j < it.seq().len() && *it.seq()[j].0 == k,
            forall|j: int, b: u32|
                0 <= j < it.index() && #[trigger] sets@[*it.seq()[j].0]@.contains_key(b) ==> r@.contains(
                    (*it.seq()[j].0, b),
                ),
            it.index() > 0 ==> forall|i: int| 0 <= i < r@.len() ==> r@[i].0 <= *it.seq()[it.index() - 1].0,
            forall|i: int|
                0 <= i < r@.len() ==> sets@.contains_key(#[trigger] r@[i].0) && sets@[r@[i].0]@.contains_key(
                    r@[i].1,
                ),
    {
        let set = *kv.0;
        let inner = kv.1;
        proof {
            let ks = it.seq().map_values(|kv: (&u32, &BTreeMap<u32, DescriptorInfo>)| *kv.0);
            if it.index() > 0 {
                assert(ks[it.index() - 1].cmp_spec(&ks[it.index() as int]) is Less);
            }
        }
        let ghost outer_index = it.index();
        let ghost outer_seq = it.seq();
        for bkv in in_it: inner.iter()
            invariant
                0 <= outer_index < outer_seq.len(),
                set == *outer_seq[outer_index].0,
                forall|j: int, b: u32|
                    0 <= j < outer_index && #[trigger] sets@[*outer_seq[j].0]@.contains_key(b) ==> r@.contains(
                        (*outer_seq[j].0, b),
                    ),
                forall|b: u32| #[trigger] inner@.contains_key(b) ==> r@.contains((set, b)) || exists|j: int|
                    in_it.index() <= j < in_it.seq().len() && *in_it.seq()[j].0 == b,
                sets@.contains_key(set),
                sets@[set] == *inner,
                increasing_seq(in_it.seq().map_values(|kv: (&u32, &DescriptorInfo)| *kv.0)),
                forall|i: int| 0 <= i < in_it.seq().len() ==> inner@.contains_key(*#[trigger] in_it.seq()[i].0),
                forall|i: int, j: int| 0 <= i < j < r@.len() ==> slot_before(r@[i], r@[j]),
                forall|i: int|
                    0 <= i < r@.len() ==> r@[i].0 < set || (r@[i].0 == set && in_it.index() > 0 && r@[i].1
                        <= *in_it.seq()[in_it.index() - 1].0),
                forall|i: int|
                    0 <= i < r@.len() ==> sets@.contains_key(#[trigger] r@[i].0) && sets@[r@[i].0]@.contains_key(
                        r@[i].1,
                    ),
        {
            proof {
                let bs = in_it.seq().map_values(|kv: (&u32, &DescriptorInfo)| *kv.0);
                if in_it.index() > 0 {
                    assert(bs[in_it.index() - 1].cmp_spec(&bs[in_it.index() as int]) is Less);
                }
            }
            let ghost prev = r@;
            r.push((set, *bkv.0));
            proof {
                assert forall|x: (u32, u32)| prev.contains(x) implies r@.contains(x) by {
                    let i = choose|i: int| 0 <= i < prev.len() && prev[i] == x;
                    assert(r@[i] == x);
                }
                assert(r@[r@.len() - 1] == (set, *bkv.0));
            }
        }
        assert(forall|b: u32| #[trigger] sets@[set]@.contains_key(b) ==> r@.contains((set, b)));
    }
    r
}

/// Whether `name` is `$Globals`.
fn is_globals_name(name: &String) -> (r: bool)
    ensures
        r == (name@ == globals_name()),
{
    let globals = <String as StringExecFns>::from_str("$Globals");
    name.eq(&globals)
}

/// The `DescriptorSet` and `Binding` values of a variable's annotations, or `None` when one is
/// given twice; see `spec_slots`.
fn decoration_slots(anns: &Vec<&Instruction>) -> (r: Option<(Option<u32>, Option<u32>)>)
    ensures
        r == spec_slots(refs_view(anns@), anns@.len() as int),
{
    let ghost s = refs_view(anns@);
    let mut set: Option<u32> = None;
    let mut binding: Option<u32> = None;
    let mut k: usize = 0;
    while k < anns.len()
        invariant
            k <= anns@.len(),
            s == refs_view(anns@),
            spec_slots(s, k as int) == Some((set, binding)),
        decreases anns@.len() - k,
    {
        let a = anns[k];
        if a.operands.len() >= 3 {
            if let Operand::Decoration(d) = &a.operands[1] {
                if let Operand::LiteralInt32(v) = &a.operands[2] {
                    if *d == DECORATION_DESCRIPTOR_SET {
                        if set.is_some() {
                            proof {
                                lemma_slots_abort_persists(s, k as int + 1, s.len() as int);
                            }
                            return None;
                        }
                        set = Some(*v);
                    } else if *d == DECORATION_BINDING {
                        if binding.is_some() {
                            proof {
                                lemma_slots_abort_persists(s, k as int + 1, s.len() as int);
                            }
                            return None;
                        }
                        binding = Some(*v);
                    }
                }
            }
        }
        k = k + 1;
    }
    Some((set, binding))
}

/// Once a decoration is given twice, every longer prefix aborts too.
pub proof fn lemma_slots_abort_persists(anns: Seq<InstructionView>, k: int, n: int)
    requires
        k <= n,
        spec_slots(anns, k) is None,
    ensures
        spec_slots(anns, n) is None,
    decreases n - k,
{
    if k < n {
        lemma_slots_abort_persists(anns, k, n - 1);
    }
}

/// Once a prefix of the variables fails or aborts, every longer prefix does the same.
pub proof fn lemma_sets_failure_persists(
    m: ModuleView,
    vars: Seq<InstructionView>,
    names: Map<u32, String>,
    k: int,
    n: int,
)
    requires
        k <= n,
        spec_sets_upto(m, vars, names, k) !is Done,
    ensures
        spec_sets_upto(m, vars, names, n) == spec_sets_upto(m, vars, names, k),
    decreases n - k,
{
    if k < n {
        lemma_sets_failure_persists(m, vars, names, k, n - 1);
    }
}

/// The selected `OpVariable`s of `types`; see `spec_select_variables`.
fn select_variables(types: &Vec<Instruction>, push_constant: bool) -> (r: Result<
    Vec<&Instruction>,
    ReflectError,
>)
    ensures
        match r {
            Ok(v) => spec_select_variables(instructions_view(types@), types@.len() as int, push_constant)
                == Ok::<Seq<InstructionView>, ReflectErrorView>(refs_view(v@)),
            Err(e) => spec_select_variables(instructions_view(types@), types@.len() as int, push_constant)
                == Err::<Seq<InstructionView>, ReflectErrorView>(e@),
        },
{
    let ghost s = instructions_view(types@);
    let mut found: Vec<&Instruction> = Vec::new();
    assert(refs_view(found@) =~= Seq::<InstructionView>::empty());
    let mut k: usize = 0;
    while k < types.len()
        invariant
            k <= types@.len(),
            s == instructions_view(types@),
            spec_select_variables(s, k as int, push_constant) == Ok::<
                Seq<InstructionView>,
                ReflectErrorView,
            >(refs_view(found@)),
        decreases types@.len() - k,
    {
        let i = &types[k];
        if i.opcode == OP_VARIABLE {
            match word_operand(i, 0, OperandKind::StorageClass) {
                Err(e) => {
                    proof {
                        lemma_select_failure_persists(s, k as int + 1, s.len() as int, push_constant);
                    }
                    return Err(e);
                },
                Ok(sc) => {
                    let wanted = if push_constant {
                        sc == STORAGE_CLASS_PUSH_CONSTANT
                    } else {
                        sc == STORAGE_CLASS_UNIFORM || sc == STORAGE_CLASS_UNIFORM_CONSTANT || sc
                            == STORAGE_CLASS_STORAGE_BUFFER
                    };
                    if wanted {
                        let ghost before = found@;
                        found.push(i);
                        assert(refs_view(found@) =~= refs_view(before).push(i@));
                    }
                },
            }
        }
        k = k + 1;
    }
    Ok(found)
}

/// The debug-name table of `debug_names`; see `spec_names_upto`.
fn name_table(debug_names: &Vec<Instruction>) -> (r: Result<BTreeMap<u32, String>, ReflectError>)
    ensures
        match r {
            Ok(t) => spec_names_upto(instructions_view(debug_names@), debug_names@.len() as int)
                == Ok::<Map<u32, String>, ReflectErrorView>(t@),
            Err(e) => spec_names_upto(instructions_view(debug_names@), debug_names@.len() as int)
                == Err::<Map<u32, String>, ReflectErrorView>(e@),
        },
{
    let ghost s = instructions_view(debug_names@);
    let mut table: BTreeMap<u32, String> = BTreeMap::new();
    let mut k: usize = 0;
    while k < debug_names.len()
        invariant
            k <= debug_names@.len(),
            s == instructions_view(debug_names@),
            spec_names_upto(s, k as int) == Ok::<Map<u32, String>, ReflectErrorView>(table@),
        decreases debug_names@.len() - k,
    {
        let i = &debug_names[k];
        if i.opcode == OP_NAME {
            let id = match word_operand(i, 0, OperandKind::IdRef) {
                Ok(v) => v,
                Err(e) => {
                    proof {
                        lemma_names_failure_persists(s, k as int + 1, s.len() as int);
                    }
                    return Err(e);
                },
            };
            let name = match string_operand(i, 1) {
                Ok(v) => v,
                Err(e) => {
                    proof {
                        lemma_names_failure_persists(s, k as int + 1, s.len() as int);
                    }
                    return Err(e);
                },
            };
            table.insert(id, name.clone());
        }
        k = k + 1;
    }
    Ok(table)
}

/// Once a prefix fails the selection, every longer prefix fails the same way.
pub proof fn lemma_select_failure_persists(s: Seq<InstructionView>, k: int, n: int, push_constant: bool)
    requires
        k <= n,
        spec_select_variables(s, k, push_constant) is Err,
    ensures
        spec_select_variables(s, n, push_constant) == spec_select_variables(s, k, push_constant),
    decreases n - k,
{
    if k < n {
        lemma_select_failure_persists(s, k, n - 1, push_constant);
    }
}

/// Once a prefix fails the name table, every longer prefix fails the same way.
pub proof fn lemma_names_failure_persists(s: Seq<InstructionView>, k: int, n: int)
    requires
        k <= n,
        spec_names_upto(s, k) is Err,
    ensures
        spec_names_upto(s, n) == spec_names_upto(s, k),
    decreases n - k,
{
    if k < n {
        lemma_names_failure_persists(s, k, n - 1);
    }
}

} // verus!
