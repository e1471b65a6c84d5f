//! Classification of a resource variable's type into a descriptor type and binding count.
use vstd::prelude::*;
use crate::access::{
    long_operand, word_operand,
    spec_annotations_for, spec_find_assignment, spec_long, spec_word, refs_view, lemma_annotations_failure_persists,
};
use crate::error::{reflected_outcome, result_view, Outcome, Reflected, ReflectError, ReflectErrorView};
use crate::module::{instructions_view, Instruction, InstructionView, ModuleView, Operand, OperandKind};
use crate::reflection::Reflection;
use crate::spirv::{
    DECORATION_BLOCK, DECORATION_BUFFER_BLOCK, DIM_BUFFER, DIM_SUBPASS_DATA, IMAGE_SAMPLED, IMAGE_STORAGE, OP_CONSTANT, OP_TYPE_ACCELERATION_STRUCTURE_KHR, OP_TYPE_ARRAY, OP_TYPE_IMAGE, OP_TYPE_INT, OP_TYPE_POINTER, OP_TYPE_RUNTIME_ARRAY, OP_TYPE_SAMPLED_IMAGE, OP_TYPE_SAMPLER, OP_TYPE_STRUCT, STORAGE_CLASS_STORAGE_BUFFER, STORAGE_CLASS_UNIFORM, STORAGE_CLASS_UNIFORM_CONSTANT,
};
use crate::types::{BindingCount, DescriptorInfo, DescriptorInfoView, DescriptorType};

verus! {

/// `v <= (1, 3)` in the order of `(major, minor)` pairs.
pub open spec fn version_at_most_1_3(v: (u8, u8)) -> bool {
    v.0 < 1 || (v.0 == 1 && v.1 <= 3)
}

/// `v >= (1, 3)` in the order of `(major, minor)` pairs.
pub open spec fn version_at_least_1_3(v: (u8, u8)) -> bool {
    v.0 > 1 || (v.0 == 1 && v.1 >= 3)
}

/// The descriptor type of a struct with the given `Block` / `BufferBlock` decorations, in a
/// module of version `version`, for a variable of storage class `sc`. Up to 1.3 `BufferBlock`
/// marks a storage buffer; from 1.3 on a `Block` struct is a uniform or storage buffer by its
/// storage class. From 1.3 on, a struct with `BufferBlock` (past the 1.3 exception) or without
/// `Block` breaks an assertion, as the module is then not one a compiler emits; before 1.3 a
/// struct with neither decoration fails with `UnknownStruct`.
pub open spec fn spec_struct_type(
    version: (u8, u8),
    block: bool,
    buffer_block: bool,
    sc: u32,
    t: InstructionView,
) -> Outcome<DescriptorType> {
    if version_at_most_1_3(version) && buffer_block {
        Outcome::Done(DescriptorType::STORAGE_BUFFER)
    } else if version_at_least_1_3(version) {
        if buffer_block || !block {
            Outcome::Aborted
        } else if sc == STORAGE_CLASS_UNIFORM || sc == STORAGE_CLASS_UNIFORM_CONSTANT {
            Outcome::Done(DescriptorType::UNIFORM_BUFFER)
        } else if sc == STORAGE_CLASS_STORAGE_BUFFER {
            Outcome::Done(DescriptorType::STORAGE_BUFFER)
        } else {
            Outcome::Failed(ReflectErrorView::UnknownStorageClass(sc))
        }
    } else if block {
        Outcome::Done(DescriptorType::UNIFORM_BUFFER)
    } else {
        Outcome::Failed(ReflectErrorView::UnknownStruct(t))
    }
}

/// The descriptor type of an `OpTypeImage`, from its dimensionality (operand 1) and its
/// `Sampled` literal (operand 5).
pub open spec fn spec_image_type(t: InstructionView) -> Result<DescriptorType, ReflectErrorView> {
    match spec_word(t, 1, OperandKind::Dim) {
        Err(e) => Err(e),
        Ok(dim) => match spec_word(t, 5, OperandKind::LiteralInt32) {
            Err(e) => Err(e),
            Ok(sampled) => if dim == DIM_BUFFER {
                if sampled == IMAGE_SAMPLED {
                    Ok(DescriptorType::UNIFORM_TEXEL_BUFFER)
                } else if sampled == IMAGE_STORAGE {
                    Ok(DescriptorType::STORAGE_TEXEL_BUFFER)
                } else {
                    Err(ReflectErrorView::ImageSampledFieldUnknown(t, sampled))
                }
            } else if dim == DIM_SUBPASS_DATA {
                Ok(DescriptorType::INPUT_ATTACHMENT)
            } else if sampled == IMAGE_SAMPLED {
                Ok(DescriptorType::SAMPLED_IMAGE)
            } else if sampled == IMAGE_STORAGE {
                Ok(DescriptorType::STORAGE_IMAGE)
            } else {
                Err(ReflectErrorView::ImageSampledFieldUnknown(t, sampled))
            },
        },
    }
}

/// The value of an array-length constant, read at the width that its `OpTypeInt` declares:
/// 32 and 64 bits are read, any other width fails with `UnexpectedIntWidth`.
pub open spec fn spec_array_length(int_type: InstructionView, constant: InstructionView) -> Result<
    usize,
    ReflectErrorView,
> {
    match spec_word(int_type, 0, OperandKind::LiteralInt32) {
        Err(e) => Err(e),
        Ok(width) => if width == 32 {
            match spec_word(constant, 0, OperandKind::LiteralInt32) {
                Err(e) => Err(e),
                Ok(v) => Ok(v as usize),
            }
        } else if width == 64 {
            match spec_long(constant, 0) {
                Err(e) => Err(e),
                Ok(v) => if v > usize::MAX {
                    Err(ReflectErrorView::TryFromIntError)
                } else {
                    Ok(v as usize)
                },
            }
        } else {
            Err(ReflectErrorView::UnexpectedIntWidth(width))
        },
    }
}

/// Whether some operand of some of `anns` is the decoration `d`.
pub open spec fn has_decoration(anns: Seq<InstructionView>, d: u32) -> bool {
    exists|a: int, k: int|
        0 <= a < anns.len() && 0 <= k < anns[a].operands.len() && #[trigger] anns[a].operands[k]
            == Operand::Decoration(d)
}

/// The annotations that target a type instruction's result id (none when it has no id).
pub open spec fn spec_type_annotations(m: ModuleView, t: InstructionView) -> Result<
    Seq<InstructionView>,
    ReflectErrorView,
> {
    match t.result_id {
        None => Ok(Seq::empty()),
        Some(id) => spec_annotations_for(m.annotations, id),
    }
}

pub open spec fn with_count(d: DescriptorInfoView, c: BindingCount) -> DescriptorInfoView {
    DescriptorInfoView { ty: d.ty, binding_count: c, name: d.name }
}

pub open spec fn with_type(d: DescriptorInfoView, ty: DescriptorType) -> DescriptorInfoView {
    DescriptorInfoView { ty, binding_count: d.binding_count, name: d.name }
}

pub open spec fn base_info(ty: DescriptorType) -> DescriptorInfoView {
    DescriptorInfoView { ty, binding_count: BindingCount::One, name: Seq::empty() }
}

/// Classifies the type instruction assigned to `id`. `fuel` bounds the number of further
/// type references followed; running out of it means the type graph has a cycle.
pub open spec fn spec_descriptor_type_for_var(m: ModuleView, id: u32, sc: u32, fuel: nat) -> Outcome<
    DescriptorInfoView,
>
    decreases fuel, 4nat,
{
    match spec_find_assignment(m.types, id) {
        Err(e) => Outcome::Failed(e),
        Ok(t) => spec_descriptor_type(m, t, sc, fuel),
    }
}

/// Follows a type reference, or aborts when the fuel is spent.
pub open spec fn spec_follow(m: ModuleView, id: u32, sc: u32, fuel: nat) -> Outcome<DescriptorInfoView>
    decreases fuel, 1nat,
{
    if fuel == 0 {
        Outcome::Aborted
    } else {
        spec_descriptor_type_for_var(m, id, sc, (fuel - 1) as nat)
    }
}

/// The classification of a type instruction `t` for a variable of storage class `sc`.
pub open spec fn spec_descriptor_type(m: ModuleView, t: InstructionView, sc: u32, fuel: nat) -> Outcome<
    DescriptorInfoView,
>
    decreases fuel, 3nat,
{
    match spec_type_annotations(m, t) {
        Err(e) => Outcome::Failed(e),
        Ok(anns) => if t.opcode == OP_TYPE_ARRAY {
            spec_array_type(m, t, sc, fuel)
        } else if t.opcode == OP_TYPE_RUNTIME_ARRAY {
            match spec_word(t, 0, OperandKind::IdRef) {
                Err(e) => Outcome::Failed(e),
                Ok(elem) => match spec_follow(m, elem, sc, fuel) {
                    Outcome::Done(d) => Outcome::Done(with_count(d, BindingCount::Unbounded)),
                    other => other,
                },
            }
        } else if t.opcode == OP_TYPE_POINTER {
            match spec_word(t, 0, OperandKind::StorageClass) {
                Err(e) => Outcome::Failed(e),
                Ok(ptr_sc) => match spec_word(t, 1, OperandKind::IdRef) {
                    Err(e) => Outcome::Failed(e),
                    Ok(elem) => if sc != ptr_sc {
                        Outcome::Aborted
                    } else {
                        spec_follow(m, elem, sc, fuel)
                    },
                },
            }
        } else if t.opcode == OP_TYPE_SAMPLED_IMAGE {
            spec_sampled_image_type(m, t, sc, fuel)
        } else if t.opcode == OP_TYPE_SAMPLER {
            Outcome::Done(base_info(DescriptorType::SAMPLER))
        } else if t.opcode == OP_TYPE_IMAGE {
            match spec_image_type(t) {
                Err(e) => Outcome::Failed(e),
                Ok(ty) => Outcome::Done(base_info(ty)),
            }
        } else if t.opcode == OP_TYPE_STRUCT {
            match m.version {
                None => Outcome::Failed(ReflectErrorView::MissingHeader),
                Some(v) => match spec_struct_type(
                    v,
                    has_decoration(anns, DECORATION_BLOCK),
                    has_decoration(anns, DECORATION_BUFFER_BLOCK),
                    sc,
                    t,
                ) {
                    Outcome::Done(ty) => Outcome::Done(base_info(ty)),
                    Outcome::Failed(e) => Outcome::Failed(e),
                    Outcome::Aborted => Outcome::Aborted,
                },
            }
        } else if t.opcode == OP_TYPE_ACCELERATION_STRUCTURE_KHR {
            Outcome::Done(base_info(DescriptorType::ACCELERATION_STRUCTURE_KHR))
        } else {
            Outcome::Failed(ReflectErrorView::UnhandledTypeInstruction(t))
        },
    }
}

/// `OpTypeArray`: the element's classification with `StaticSized(n)`, where `n` is the value
/// of the length constant (operand 1), which must be an `OpConstant` of an `OpTypeInt` and at
/// least 1.
pub open spec fn spec_array_type(m: ModuleView, t: InstructionView, sc: u32, fuel: nat) -> Outcome<
    DescriptorInfoView,
>
    decreases fuel, 2nat,
{
    match spec_word(t, 0, OperandKind::IdRef) {
        Err(e) => Outcome::Failed(e),
        Ok(elem) => match spec_word(t, 1, OperandKind::IdRef) {
            Err(e) => Outcome::Failed(e),
            Ok(len_id) => match spec_find_assignment(m.types, len_id) {
                Err(e) => Outcome::Failed(e),
                Ok(c) => if c.opcode != OP_CONSTANT {
                    Outcome::Aborted
                } else {
                    match c.result_type {
                        None => Outcome::Aborted,
                        Some(cty_id) => match spec_find_assignment(m.types, cty_id) {
                            Err(e) => Outcome::Failed(e),
                            Ok(cty) => if cty.opcode != OP_TYPE_INT {
                                Outcome::Aborted
                            } else {
                                match spec_array_length(cty, c) {
                                    Err(e) => Outcome::Failed(e),
                                    Ok(n) => if n < 1 {
                                        Outcome::Aborted
                                    } else {
                                        match spec_follow(m, elem, sc, fuel) {
                                            Outcome::Done(d) => Outcome::Done(
                                                with_count(d, BindingCount::StaticSized(n)),
                                            ),
                                            other => other,
                                        }
                                    },
                                }
                            },
                        },
                    }
                },
            },
        },
    }
}

/// `OpTypeSampledImage`: the image's classification, which stays for a buffer image (where it
/// must be a texel buffer) and becomes `COMBINED_IMAGE_SAMPLER` otherwise. A subpass-data
/// image breaks an assertion.
pub open spec fn spec_sampled_image_type(m: ModuleView, t: InstructionView, sc: u32, fuel: nat) -> Outcome<
    DescriptorInfoView,
>
    decreases fuel, 2nat,
{
    match spec_word(t, 0, OperandKind::IdRef) {
        Err(e) => Outcome::Failed(e),
        Ok(elem) => match spec_find_assignment(m.types, elem) {
            Err(e) => Outcome::Failed(e),
            Ok(img) => if fuel == 0 {
                Outcome::Aborted
            } else {
                match spec_descriptor_type(m, img, sc, (fuel - 1) as nat) {
                    Outcome::Done(d) => match spec_word(img, 1, OperandKind::Dim) {
                        Err(e) => Outcome::Failed(e),
                        Ok(dim) => if dim == DIM_SUBPASS_DATA {
                            Outcome::Aborted
                        } else if dim == DIM_BUFFER {
                            if !(d.ty is UNIFORM_TEXEL_BUFFER || d.ty is STORAGE_TEXEL_BUFFER) {
                                Outcome::Aborted
                            } else {
                                Outcome::Done(d)
                            }
                        } else {
                            Outcome::Done(with_type(d, DescriptorType::COMBINED_IMAGE_SAMPLER))
                        },
                    },
                    other => other,
                }
            },
        },
    }
}

pub open spec fn info_reflected(r: Reflected<DescriptorInfo>) -> Outcome<DescriptorInfoView> {
    match r {
        Reflected::Done(d) => Outcome::Done(d@),
        Reflected::Failed(e) => Outcome::Failed(e@),
        Reflected::Aborted => Outcome::Aborted,
    }
}

/// The descriptor type of an `OpTypeImage`; see `spec_image_type`.
pub fn image_type(t: &Instruction) -> (r: Result<DescriptorType, ReflectError>)
    ensures
        result_view(r) == spec_image_type(t@),
{
    let dim = match word_operand(t, 1, OperandKind::Dim) {
        Ok(v) => v,
        Err(e) => return Err(e),
    };
    let sampled = match word_operand(t, 5, OperandKind::LiteralInt32) {
        Ok(v) => v,
        Err(e) => return Err(e),
    };
    if dim == DIM_BUFFER {
        if sampled == IMAGE_SAMPLED {
            Ok(DescriptorType::UNIFORM_TEXEL_BUFFER)
        } else if sampled == IMAGE_STORAGE {
            Ok(DescriptorType::STORAGE_TEXEL_BUFFER)
        } else {
            Err(ReflectError::ImageSampledFieldUnknown(t.clone(), sampled))
        }
    } else if dim == DIM_SUBPASS_DATA {
        Ok(DescriptorType::INPUT_ATTACHMENT)
    } else if sampled == IMAGE_SAMPLED {
        Ok(DescriptorType::SAMPLED_IMAGE)
    } else if sampled == IMAGE_STORAGE {
        Ok(DescriptorType::STORAGE_IMAGE)
    } else {
        Err(ReflectError::ImageSampledFieldUnknown(t.clone(), sampled))
    }
}

/// The value of an array-length constant; see `spec_array_length`.
pub fn array_length(int_type: &Instruction, constant: &Instruction) -> (r: Result<usize, ReflectError>)
    ensures
        result_view(r) == spec_array_length(int_type@, constant@),
{
    let width = match word_operand(int_type, 0, OperandKind::LiteralInt32) {
        Ok(v) => v,
        Err(e) => return Err(e),
    };
    if width == 32 {
        match word_operand(constant, 0, OperandKind::LiteralInt32) {
            Ok(v) => Ok(v as usize),
            Err(e) => Err(e),
        }
    } else if width == 64 {
        match long_operand(constant, 0) {
            Ok(v) => if v > usize::MAX as u64 {
                Err(ReflectError::TryFromIntError)
            } else {
                Ok(v as usize)
            },
            Err(e) => Err(e),
        }
    } else {
        Err(ReflectError::UnexpectedIntWidth(width))
    }
}

/// The descriptor type of a struct; see `spec_struct_type`.
pub fn struct_type(version: (u8, u8), block: bool, buffer_block: bool, sc: u32, t: &Instruction) -> (r:
    Reflected<DescriptorType>)
    ensures
        reflected_outcome(r) == spec_struct_type(version, block, buffer_block, sc, t@),
{
    let at_most_1_3 = version.0 < 1 || (version.0 == 1 && version.1 <= 3);
    let at_least_1_3 = version.0 > 1 || (version.0 == 1 && version.1 >= 3);
    if at_most_1_3 && buffer_block {
        Reflected::Done(DescriptorType::STORAGE_BUFFER)
    } else if at_least_1_3 {
        if buffer_block || !block {
            Reflected::Aborted
        } else if sc == STORAGE_CLASS_UNIFORM || sc == STORAGE_CLASS_UNIFORM_CONSTANT {
            Reflected::Done(DescriptorType::UNIFORM_BUFFER)
        } else if sc == STORAGE_CLASS_STORAGE_BUFFER {
            Reflected::Done(DescriptorType::STORAGE_BUFFER)
        } else {
            Reflected::Failed(ReflectError::UnknownStorageClass(sc))
        }
    } else if block {
        Reflected::Done(DescriptorType::UNIFORM_BUFFER)
    } else {
        Reflected::Failed(ReflectError::UnknownStruct(t.clone()))
    }
}

/// Whether the annotations carry the `Block` and the `BufferBlock` decoration, as operands
/// anywhere in them.
pub fn block_decorations(anns: &Vec<&Instruction>) -> (r: (bool, bool))
    ensures
        r.0 == has_decoration(refs_view(anns@), DECORATION_BLOCK),
        r.1 == has_decoration(refs_view(anns@), DECORATION_BUFFER_BLOCK),
{
    let ghost s = refs_view(anns@);
    let mut block = false;
    let mut buffer_block = false;
    let mut a: usize = 0;
    while a < anns.len()
        invariant
            a <= anns@.len(),
            s == refs_view(anns@),
            block == exists|x: int, k: int|
                0 <= x < a && 0 <= k < s[x].operands.len() && #[trigger] s[x].operands[k]
                    == Operand::Decoration(DECORATION_BLOCK),
            buffer_block == exists|x: int, k: int|
                0 <= x < a && 0 <= k < s[x].operands.len() && #[trigger] s[x].operands[k]
                    == Operand::Decoration(DECORATION_BUFFER_BLOCK),
        decreases anns@.len() - a,
    {
        let ops = &anns[a].operands;
        let mut k: usize = 0;
        while k < ops.len()
            invariant
                a < anns@.len(),
                k <= ops@.len(),
                s == refs_view(anns@),
                ops@ == s[a as int].operands,
                block == exists|x: int, j: int|
                    (0 <= x < a && 0 <= j < s[x].operands.len() || x == a && 0 <= j < k)
                        && #[trigger] s[x].operands[j] == Operand::Decoration(DECORATION_BLOCK),
                buffer_block == exists|x: int, j: int|
                    (0 <= x < a && 0 <= j < s[x].operands.len() || x == a && 0 <= j < k)
                        && #[trigger] s[x].operands[j] == Operand::Decoration(
                        DECORATION_BUFFER_BLOCK,
                    ),
            decreases ops@.len() - k,
        {
            if let Operand::Decoration(d) = &ops[k] {
                if *d == DECORATION_BLOCK {
                    block = true;
                } else if *d == DECORATION_BUFFER_BLOCK {
                    buffer_block = true;
                }
            }
            k = k + 1;
        }
        a = a + 1;
    }
    (block, buffer_block)
}

impl Reflection {
    /// Classifies the type instruction that assigns `type_id`; see
    /// `spec_descriptor_type_for_var`. `fuel` bounds the type references followed; the number
    /// of instructions in `types_global_values` is enough for a module whose types are declared
    /// in order (`lemma_reflection_fuel_enough`), and running out of it reports `Aborted`.
    pub fn get_descriptor_type_for_var(&self, type_id: u32, storage_class: u32, fuel: usize) -> (r:
        Reflected<DescriptorInfo>)
        ensures
            info_reflected(r) == spec_descriptor_type_for_var(self.0@, type_id, storage_class, fuel as nat),
        decreases fuel, 4nat,
    {
        let type_instruction = match Reflection::find_assignment_for(&self.0.types_global_values, type_id) {
            Ok(t) => t,
            Err(e) => return Reflected::Failed(e),
        };
        self.get_descriptor_type(type_instruction, storage_class, fuel)
    }

    /// Follows a reference to an element type.
    fn follow_type(&self, type_id: u32, storage_class: u32, fuel: usize) -> (r: Reflected<DescriptorInfo>)
        ensures
            info_reflected(r) == spec_follow(self.0@, type_id, storage_class, fuel as nat),
        decreases fuel, 1nat,
    {
        if fuel == 0 {
            return Reflected::Aborted;
        }
        self.get_descriptor_type_for_var(type_id, storage_class, fuel - 1)
    }

    /// Classifies a type instruction for a variable of storage class `storage_class`; see
    /// `spec_descriptor_type` and, for what it yields per opcode, `lemma_binding_count_by_type`.
    /// `fuel` is as for `get_descriptor_type_for_var`.
    pub fn get_descriptor_type(&self, type_instruction: &Instruction, storage_class: u32, fuel: usize) -> (r:
        Reflected<DescriptorInfo>)
        ensures
            info_reflected(r) == spec_descriptor_type(self.0@, type_instruction@, storage_class, fuel as nat),
        decreases fuel, 3nat,
    {
        let ghost m = self.0@;
        let ghost t = type_instruction@;
        let annotations = match type_instruction.result_id {
            Some(id) => match Reflection::find_annotations_for_id(&self.0.annotations, id) {
                Ok(v) => v,
                Err(e) => return Reflected::Failed(e),
            },
            None => {
                let v: Vec<&Instruction> = Vec::new();
                assert(refs_view(v@) =~= Seq::<InstructionView>::empty());
                v
            },
        };
        assert(spec_type_annotations(m, t) == Ok::<Seq<InstructionView>, ReflectErrorView>(
            refs_view(annotations@),
        ));
        let opcode = type_instruction.opcode;
        if opcode == OP_TYPE_ARRAY {
            return self.array_descriptor_type(type_instruction, storage_class, fuel);
        } else if opcode == OP_TYPE_RUNTIME_ARRAY {
            let elem = match word_operand(type_instruction, 0, OperandKind::IdRef) {
                Ok(v) => v,
                Err(e) => return Reflected::Failed(e),
            };
            return match self.follow_type(elem, storage_class, fuel) {
                Reflected::Done(d) => Reflected::Done(
                    DescriptorInfo { ty: d.ty, binding_count: BindingCount::Unbounded, name: d.name },
                ),
                Reflected::Failed(e) => Reflected::Failed(e),
                Reflected::Aborted => Reflected::Aborted,
            };
        } else if opcode == OP_TYPE_POINTER {
            let ptr_storage_class = match word_operand(type_instruction, 0, OperandKind::StorageClass) {
                Ok(v) => v,
                Err(e) => return Reflected::Failed(e),
            };
            let elem = match word_operand(type_instruction, 1, OperandKind::IdRef) {
                Ok(v) => v,
                Err(e) => return Reflected::Failed(e),
            };
            if ptr_storage_class != storage_class {
                return Reflected::Aborted;
            }
            return self.follow_type(elem, storage_class, fuel);
        } else if opcode == OP_TYPE_SAMPLED_IMAGE {
            return self.sampled_image_descriptor_type(type_instruction, storage_class, fuel);
        }
        let ty = if opcode == OP_TYPE_SAMPLER {
            DescriptorType::SAMPLER
        } else if opcode == OP_TYPE_IMAGE {
            match image_type(type_instruction) {
                Ok(ty) => ty,
                Err(e) => return Reflected::Failed(e),
            }
        } else if opcode == OP_TYPE_STRUCT {
            let (block, buffer_block) = block_decorations(&annotations);
            let version = match self.0.version {
                Some(v) => v,
                None => return Reflected::Failed(ReflectError::MissingHeader),
            };
            match struct_type(version, block, buffer_block, storage_class, type_instruction) {
                Reflected::Done(ty) => ty,
                Reflected::Failed(e) => return Reflected::Failed(e),
                Reflected::Aborted => return Reflected::Aborted,
            }
        } else if opcode == OP_TYPE_ACCELERATION_STRUCTURE_KHR {
            DescriptorType::ACCELERATION_STRUCTURE_KHR
        } else {
            return Reflected::Failed(ReflectError::UnhandledTypeInstruction(type_instruction.clone()));
        };
        Reflected::Done(DescriptorInfo { ty, binding_count: BindingCount::One, name: String::new() })
    }

    /// `OpTypeArray`; see `spec_array_type`.
    fn array_descriptor_type(&self, type_instruction: &Instruction, storage_class: u32, fuel: usize) -> (r:
        Reflected<DescriptorInfo>)
        ensures
            info_reflected(r) == spec_array_type(self.0@, type_instruction@, storage_class, fuel as nat),
        decreases fuel, 2nat,
    {
        let elem = match word_operand(type_instruction, 0, OperandKind::IdRef) {
            Ok(v) => v,
            Err(e) => return Reflected::Failed(e),
        };
        let len_id = match word_operand(type_instruction, 1, OperandKind::IdRef) {
            Ok(v) => v,
            Err(e) => return Reflected::Failed(e),
        };
        let constant = match Reflection::find_assignment_for(&self.0.types_global_values, len_id) {
            Ok(c) => c,
            Err(e) => return Reflected::Failed(e),
        };
        if constant.opcode != OP_CONSTANT {
            return Reflected::Aborted;
        }
        let constant_type_id = match constant.result_type {
            Some(id) => id,
            None => return Reflected::Aborted,
        };
        let int_type = match Reflection::find_assignment_for(&self.0.types_global_values, constant_type_id) {
            Ok(c) => c,
            Err(e) => return Reflected::Failed(e),
        };
        if int_type.opcode != OP_TYPE_INT {
            return Reflected::Aborted;
        }
        let n = match array_length(int_type, constant) {
            Ok(n) => n,
            Err(e) => return Reflected::Failed(e),
        };
        if n < 1 {
            return Reflected::Aborted;
        }
        match self.follow_type(elem, storage_class, fuel) {
            Reflected::Done(d) => Reflected::Done(
                DescriptorInfo { ty: d.ty, binding_count: BindingCount::StaticSized(n), name: d.name },
            ),
            Reflected::Failed(e) => Reflected::Failed(e),
            Reflected::Aborted => Reflected::Aborted,
        }
    }

    /// `OpTypeSampledImage`; see `spec_sampled_image_type`.
    fn sampled_image_descriptor_type(&self, type_instruction: &Instruction, storage_class: u32, fuel: usize) -> (r:
        Reflected<DescriptorInfo>)
        ensures
            info_reflected(r) == spec_sampled_image_type(self.0@, type_instruction@, storage_class, fuel as nat),
        decreases fuel, 2nat,
    {
        let elem = match word_operand(type_instruction, 0, OperandKind::IdRef) {
            Ok(v) => v,
            Err(e) => return Reflected::Failed(e),
        };
        let image = match Reflection::find_assignment_for(&self.0.types_global_values, elem) {
            Ok(i) => i,
            Err(e) => return Reflected::Failed(e),
        };
        if fuel == 0 {
            return Reflected::Aborted;
        }
        let d = match self.get_descriptor_type(image, storage_class, fuel - 1) {
            Reflected::Done(d) => d,
            Reflected::Failed(e) => return Reflected::Failed(e),
            Reflected::Aborted => return Reflected::Aborted,
        };
        let dim = match word_operand(image, 1, OperandKind::Dim) {
            Ok(v) => v,
            Err(e) => return Reflected::Failed(e),
        };
        if dim == DIM_SUBPASS_DATA {
            Reflected::Aborted
        } else if dim == DIM_BUFFER {
            match d.ty {
                DescriptorType::UNIFORM_TEXEL_BUFFER | DescriptorType::STORAGE_TEXEL_BUFFER => Reflected::Done(d),
                _ => Reflected::Aborted,
            }
        } else {
            Reflected::Done(
                DescriptorInfo {
                    ty: DescriptorType::COMBINED_IMAGE_SAMPLER,
                    binding_count: d.binding_count,
                    name: d.name,
                },
            )
        }
    }
}

} // verus!
