use rspirv_reflect::error::{ReflectError, Reflected};
use rspirv_reflect::module::{Instruction, Module, Operand, OperandKind};
use rspirv_reflect::reflection::Reflection;
use rspirv_reflect::spirv;
use rspirv_reflect::types::{BindingCount, DescriptorType};

fn inst(opcode: u32, result_type: Option<u32>, result_id: Option<u32>, operands: Vec<Operand>) -> Instruction {
    Instruction { opcode, result_type, result_id, operands }
}

fn decorate(target: u32, decoration: u32, value: Option<u32>) -> Instruction {
    let mut operands = vec![Operand::IdRef(target), Operand::Decoration(decoration)];
    if let Some(v) = value {
        operands.push(Operand::LiteralInt32(v));
    }
    inst(spirv::OP_DECORATE, None, None, operands)
}

fn base(version: (u8, u8)) -> Module {
    Module {
        version: Some(version),
        execution_modes: vec![],
        debug_names: vec![],
        annotations: vec![],
        types_global_values: vec![
            inst(spirv::OP_TYPE_INT, None, Some(1), vec![Operand::LiteralInt32(32), Operand::LiteralInt32(0)]),
            inst(spirv::OP_TYPE_FLOAT, None, Some(2), vec![Operand::LiteralInt32(32)]),
        ],
    }
}

fn storage_image(id: u32) -> Instruction {
    inst(
        spirv::OP_TYPE_IMAGE,
        None,
        Some(id),
        vec![
            Operand::IdRef(2),
            Operand::Dim(spirv::DIM_2D),
            Operand::LiteralInt32(0),
            Operand::LiteralInt32(0),
            Operand::LiteralInt32(0),
            Operand::LiteralInt32(2),
            Operand::Other,
        ],
    )
}

/// A variable of class `sc` pointing at `pointee`, with optional set and binding.
fn variable(m: &mut Module, var: u32, pointee: u32, sc: u32, set: Option<u32>, binding: Option<u32>) {
    let ptr = var + 1000;
    m.types_global_values.push(inst(
        spirv::OP_TYPE_POINTER,
        None,
        Some(ptr),
        vec![Operand::StorageClass(sc), Operand::IdRef(pointee)],
    ));
    m.types_global_values.push(inst(spirv::OP_VARIABLE, Some(ptr), Some(var), vec![Operand::StorageClass(sc)]));
    if let Some(s) = set {
        m.annotations.push(decorate(var, spirv::DECORATION_DESCRIPTOR_SET, Some(s)));
    }
    if let Some(b) = binding {
        m.annotations.push(decorate(var, spirv::DECORATION_BINDING, Some(b)));
    }
}

fn push_constant_of(m: &mut Module, var: u32, pointee: u32) {
    let pc = spirv::STORAGE_CLASS_PUSH_CONSTANT;
    let ptr = var + 1000;
    m.types_global_values.push(inst(
        spirv::OP_TYPE_POINTER,
        None,
        Some(ptr),
        vec![Operand::StorageClass(pc), Operand::IdRef(pointee)],
    ));
    m.types_global_values.push(inst(spirv::OP_VARIABLE, Some(ptr), Some(var), vec![Operand::StorageClass(pc)]));
}

/// A module with one storage-image array variable whose length constant has the given int type.
fn array_with_length_type(width: u32, length: Operand) -> Module {
    let mut m = base((1, 0));
    m.types_global_values.push(inst(
        spirv::OP_TYPE_INT,
        None,
        Some(40),
        vec![Operand::LiteralInt32(width), Operand::LiteralInt32(0)],
    ));
    m.types_global_values.push(inst(spirv::OP_CONSTANT, Some(40), Some(41), vec![length]));
    m.types_global_values.push(storage_image(3));
    m.types_global_values.push(inst(
        spirv::OP_TYPE_ARRAY,
        None,
        Some(42),
        vec![Operand::IdRef(3), Operand::IdRef(41)],
    ));
    variable(&mut m, 50, 42, spirv::STORAGE_CLASS_UNIFORM_CONSTANT, Some(0), Some(0));
    m
}

fn struct_module(version: (u8, u8), decorations: &[u32], sc: u32) -> Module {
    let mut m = base(version);
    m.types_global_values.push(inst(spirv::OP_TYPE_STRUCT, None, Some(3), vec![Operand::IdRef(2)]));
    for d in decorations {
        m.annotations.push(decorate(3, *d, None));
    }
    variable(&mut m, 50, 3, sc, Some(0), Some(0));
    m
}

#[test]
fn array_length_of_width_32_and_64_is_read() {
    let sets = Reflection::new(array_with_length_type(32, Operand::LiteralInt32(7))).get_descriptor_sets().unwrap();
    assert_eq!(sets[&0][&0].binding_count, BindingCount::StaticSized(7));
    let sets = Reflection::new(array_with_length_type(64, Operand::LiteralInt64(9))).get_descriptor_sets().unwrap();
    assert_eq!(sets[&0][&0].binding_count, BindingCount::StaticSized(9));
    assert_eq!(sets[&0][&0].ty, DescriptorType::STORAGE_IMAGE);
}

#[test]
fn array_length_of_other_widths_fails() {
    for width in [8u32, 16, 128] {
        let r = Reflection::new(array_with_length_type(width, Operand::LiteralInt32(7))).get_descriptor_sets();
        assert!(matches!(r, Err(ReflectError::UnexpectedIntWidth(w)) if w == width));
    }
}

#[test]
fn runtime_array_is_unbounded() {
    let mut m = base((1, 0));
    m.types_global_values.push(storage_image(3));
    m.types_global_values.push(inst(spirv::OP_TYPE_RUNTIME_ARRAY, None, Some(4), vec![Operand::IdRef(3)]));
    variable(&mut m, 50, 4, spirv::STORAGE_CLASS_UNIFORM_CONSTANT, Some(2), Some(5));
    let sets = Reflection::new(m).get_descriptor_sets().unwrap();
    assert_eq!(sets[&2][&5].binding_count, BindingCount::Unbounded);
    assert_eq!(sets[&2][&5].name, "");
}

#[test]
fn sampler_and_acceleration_structure_are_one() {
    let mut m = base((1, 4));
    m.types_global_values.push(inst(spirv::OP_TYPE_SAMPLER, None, Some(3), vec![]));
    m.types_global_values.push(inst(spirv::OP_TYPE_ACCELERATION_STRUCTURE_KHR, None, Some(4), vec![]));
    variable(&mut m, 50, 3, spirv::STORAGE_CLASS_UNIFORM_CONSTANT, Some(0), Some(0));
    variable(&mut m, 51, 4, spirv::STORAGE_CLASS_UNIFORM_CONSTANT, Some(0), Some(1));
    let sets = Reflection::new(m).get_descriptor_sets().unwrap();
    assert_eq!(sets[&0][&0].ty, DescriptorType::SAMPLER);
    assert_eq!(sets[&0][&0].binding_count, BindingCount::One);
    assert_eq!(sets[&0][&1].ty, DescriptorType::ACCELERATION_STRUCTURE_KHR);
}

#[test]
fn subpass_image_is_input_attachment() {
    let mut m = base((1, 0));
    m.types_global_values.push(inst(
        spirv::OP_TYPE_IMAGE,
        None,
        Some(3),
        vec![
            Operand::IdRef(2),
            Operand::Dim(spirv::DIM_SUBPASS_DATA),
            Operand::LiteralInt32(0),
            Operand::LiteralInt32(0),
            Operand::LiteralInt32(0),
            Operand::LiteralInt32(2),
            Operand::Other,
        ],
    ));
    variable(&mut m, 50, 3, spirv::STORAGE_CLASS_UNIFORM_CONSTANT, Some(0), Some(0));
    let sets = Reflection::new(m).get_descriptor_sets().unwrap();
    assert_eq!(sets[&0][&0].ty, DescriptorType::INPUT_ATTACHMENT);
}

#[test]
fn version_1_3_accepts_buffer_block_and_block() {
    let u = spirv::STORAGE_CLASS_UNIFORM;
    let sets = Reflection::new(struct_module((1, 3), &[spirv::DECORATION_BUFFER_BLOCK], u)).get_descriptor_sets().unwrap();
    assert_eq!(sets[&0][&0].ty, DescriptorType::STORAGE_BUFFER);
    let sets = Reflection::new(struct_module((1, 3), &[spirv::DECORATION_BLOCK], u)).get_descriptor_sets().unwrap();
    assert_eq!(sets[&0][&0].ty, DescriptorType::UNIFORM_BUFFER);
    let sb = spirv::STORAGE_CLASS_STORAGE_BUFFER;
    let sets = Reflection::new(struct_module((1, 3), &[spirv::DECORATION_BLOCK], sb)).get_descriptor_sets().unwrap();
    assert_eq!(sets[&0][&0].ty, DescriptorType::STORAGE_BUFFER);
}

#[test]
fn struct_without_block_fails() {
    let u = spirv::STORAGE_CLASS_UNIFORM;
    let r = Reflection::new(struct_module((1, 0), &[], u)).get_descriptor_sets();
    assert!(matches!(r, Err(ReflectError::UnknownStruct(i)) if i.result_id == Some(3)));
}

#[test]
fn uniform_constant_block_is_uniform_buffer() {
    let mut m = base((1, 5));
    m.types_global_values.push(inst(spirv::OP_TYPE_STRUCT, None, Some(3), vec![Operand::IdRef(2)]));
    m.annotations.push(decorate(3, spirv::DECORATION_BLOCK, None));
    variable(&mut m, 50, 3, spirv::STORAGE_CLASS_UNIFORM_CONSTANT, Some(0), Some(0));
    let sets = Reflection::new(m).get_descriptor_sets().unwrap();
    assert_eq!(sets[&0][&0].ty, DescriptorType::UNIFORM_BUFFER);
}

#[test]
fn struct_without_header_fails() {
    let mut m = struct_module((1, 0), &[spirv::DECORATION_BLOCK], spirv::STORAGE_CLASS_UNIFORM);
    m.version = None;
    assert!(matches!(Reflection::new(m).get_descriptor_sets(), Err(ReflectError::MissingHeader)));
}

#[test]
fn globals_buffer_fails() {
    let mut m = struct_module((1, 0), &[spirv::DECORATION_BLOCK], spirv::STORAGE_CLASS_UNIFORM);
    m.debug_names.push(inst(
        spirv::OP_NAME,
        None,
        None,
        vec![Operand::IdRef(50), Operand::LiteralString("$Globals".to_string())],
    ));
    assert!(matches!(
        Reflection::new(m).get_descriptor_sets(),
        Err(ReflectError::BindingGlobalParameterBuffer)
    ));
}

#[test]
fn globals_buffer_fails_whatever_its_type() {
    let mut m = base((1, 0));
    m.types_global_values.push(storage_image(3));
    variable(&mut m, 50, 3, spirv::STORAGE_CLASS_UNIFORM_CONSTANT, Some(3), Some(1));
    m.debug_names.push(inst(
        spirv::OP_NAME,
        None,
        None,
        vec![Operand::IdRef(50), Operand::LiteralString("$Globals".to_string())],
    ));
    assert!(matches!(
        Reflection::new(m).get_descriptor_sets(),
        Err(ReflectError::BindingGlobalParameterBuffer)
    ));
}

#[test]
fn missing_set_and_binding_decorations_fail() {
    let mut m = base((1, 0));
    m.types_global_values.push(storage_image(3));
    variable(&mut m, 50, 3, spirv::STORAGE_CLASS_UNIFORM_CONSTANT, None, Some(1));
    assert!(matches!(
        Reflection::new(m).get_descriptor_sets(),
        Err(ReflectError::MissingSetDecoration(i)) if i.result_id == Some(50)
    ));
    let mut m = base((1, 0));
    m.types_global_values.push(storage_image(3));
    variable(&mut m, 50, 3, spirv::STORAGE_CLASS_UNIFORM_CONSTANT, Some(0), None);
    assert!(matches!(
        Reflection::new(m).get_descriptor_sets(),
        Err(ReflectError::MissingBindingDecoration(i)) if i.result_id == Some(50)
    ));
}

#[test]
fn unknown_sampled_field_fails() {
    let mut m = base((1, 0));
    m.types_global_values.push(inst(
        spirv::OP_TYPE_IMAGE,
        None,
        Some(3),
        vec![
            Operand::IdRef(2),
            Operand::Dim(spirv::DIM_2D),
            Operand::LiteralInt32(0),
            Operand::LiteralInt32(0),
            Operand::LiteralInt32(0),
            Operand::LiteralInt32(0),
            Operand::Other,
        ],
    ));
    variable(&mut m, 50, 3, spirv::STORAGE_CLASS_UNIFORM_CONSTANT, Some(0), Some(0));
    assert!(matches!(
        Reflection::new(m).get_descriptor_sets(),
        Err(ReflectError::ImageSampledFieldUnknown(_, 0))
    ));
}

#[test]
fn unhandled_type_and_unassigned_id_fail() {
    let mut m = base((1, 0));
    variable(&mut m, 50, 2, spirv::STORAGE_CLASS_UNIFORM_CONSTANT, Some(0), Some(0));
    assert!(matches!(
        Reflection::new(m).get_descriptor_sets(),
        Err(ReflectError::UnhandledTypeInstruction(i)) if i.opcode == spirv::OP_TYPE_FLOAT
    ));
    let mut m = base((1, 0));
    variable(&mut m, 50, 77, spirv::STORAGE_CLASS_UNIFORM_CONSTANT, Some(0), Some(0));
    assert!(matches!(Reflection::new(m).get_descriptor_sets(), Err(ReflectError::UnassignedResultId(77))));
}

#[test]
fn variable_without_type_fails() {
    let mut m = base((1, 0));
    m.types_global_values.push(inst(
        spirv::OP_VARIABLE,
        None,
        Some(50),
        vec![Operand::StorageClass(spirv::STORAGE_CLASS_UNIFORM)],
    ));
    m.annotations.push(decorate(50, spirv::DECORATION_DESCRIPTOR_SET, Some(0)));
    m.annotations.push(decorate(50, spirv::DECORATION_BINDING, Some(0)));
    assert!(matches!(
        Reflection::new(m).get_descriptor_sets(),
        Err(ReflectError::VariableWithoutReturnType(_))
    ));
}

#[test]
fn malformed_operands_fail() {
    let mut m = base((1, 0));
    m.types_global_values.push(inst(spirv::OP_VARIABLE, Some(1), Some(50), vec![]));
    assert!(matches!(
        Reflection::new(m).get_descriptor_sets(),
        Err(ReflectError::OperandIndexError(_, OperandKind::StorageClass, 0, 0))
    ));
    let mut m = base((1, 0));
    m.types_global_values.push(inst(spirv::OP_VARIABLE, Some(1), Some(50), vec![Operand::IdRef(3)]));
    assert!(matches!(
        Reflection::new(m).get_push_constant_range(),
        Err(ReflectError::OperandError(_, OperandKind::StorageClass, 0))
    ));
}

#[test]
fn variables_of_other_classes_are_skipped() {
    let mut m = base((1, 0));
    m.types_global_values.push(storage_image(3));
    variable(&mut m, 50, 3, spirv::STORAGE_CLASS_OUTPUT, Some(0), Some(0));
    let sets = Reflection::new(m).get_descriptor_sets().unwrap();
    assert!(sets.is_empty());
}

#[test]
fn no_push_constant_is_none() {
    let mut m = base((1, 0));
    m.types_global_values.push(storage_image(3));
    variable(&mut m, 50, 3, spirv::STORAGE_CLASS_UNIFORM_CONSTANT, Some(0), Some(0));
    assert!(matches!(Reflection::new(m).get_push_constant_range(), Ok(None)));
}

#[test]
fn two_push_constants_fail() {
    let mut m = base((1, 0));
    push_constant_of(&mut m, 50, 2);
    push_constant_of(&mut m, 51, 2);
    assert!(matches!(Reflection::new(m).get_push_constant_range(), Err(ReflectError::TooManyPushConstants)));
}

#[test]
fn push_constant_sizes() {
    // An empty struct has size 0.
    let mut m = base((1, 0));
    m.types_global_values.push(inst(spirv::OP_TYPE_STRUCT, None, Some(3), vec![]));
    push_constant_of(&mut m, 50, 3);
    let r = Reflection::new(m).get_push_constant_range().unwrap().unwrap();
    assert_eq!((r.offset, r.size), (0, 0));
    // A struct of one float has the float's size, whatever offsets are declared.
    let mut m = base((1, 0));
    m.types_global_values.push(inst(spirv::OP_TYPE_STRUCT, None, Some(3), vec![Operand::IdRef(2)]));
    m.annotations.push(inst(
        spirv::OP_MEMBER_DECORATE,
        None,
        None,
        vec![Operand::IdRef(3), Operand::LiteralInt32(0), Operand::Decoration(spirv::DECORATION_OFFSET), Operand::LiteralInt32(12)],
    ));
    push_constant_of(&mut m, 50, 3);
    assert_eq!(Reflection::new(m).get_push_constant_range().unwrap().unwrap().size, 4);
    // A scalar push constant is its width in bytes.
    let mut m = base((1, 0));
    push_constant_of(&mut m, 50, 1);
    assert_eq!(Reflection::new(m).get_push_constant_range().unwrap().unwrap().size, 4);
}

#[test]
fn push_constant_of_unassigned_type_fails() {
    let mut m = base((1, 0));
    push_constant_of(&mut m, 50, 77);
    assert!(matches!(Reflection::new(m).get_push_constant_range(), Err(ReflectError::UnassignedResultId(77))));
}

#[test]
fn compute_group_size() {
    let mut m = base((1, 0));
    let mode = |x: u32, mode_code: u32| {
        inst(
            spirv::OP_EXECUTION_MODE,
            None,
            None,
            vec![
                Operand::IdRef(9),
                Operand::ExecutionMode(mode_code),
                Operand::LiteralInt32(x),
                Operand::LiteralInt32(2),
                Operand::LiteralInt32(1),
            ],
        )
    };
    assert_eq!(Reflection::new(base((1, 0))).get_compute_group_size(), None);
    m.execution_modes.push(inst(spirv::OP_EXECUTION_MODE, None, None, vec![]));
    m.execution_modes.push(mode(3, 7));
    m.execution_modes.push(mode(16, spirv::EXECUTION_MODE_LOCAL_SIZE_HINT));
    m.execution_modes.push(mode(64, spirv::EXECUTION_MODE_LOCAL_SIZE));
    assert_eq!(Reflection::new(m).get_compute_group_size(), Some((16, 2, 1)));
}

#[test]
fn lookups_by_id() {
    let m = base((1, 0));
    let found = Reflection::find_assignment_for(&m.types_global_values, 2).unwrap();
    assert_eq!(found.opcode, spirv::OP_TYPE_FLOAT);
    assert!(matches!(
        Reflection::find_assignment_for(&m.types_global_values, 9),
        Err(ReflectError::UnassignedResultId(9))
    ));
    let anns = vec![
        decorate(4, spirv::DECORATION_BLOCK, None),
        decorate(5, spirv::DECORATION_BINDING, Some(1)),
        decorate(4, spirv::DECORATION_BINDING, Some(2)),
    ];
    let hits = Reflection::find_annotations_for_id(&anns, 4).unwrap();
    assert_eq!(hits.len(), 2);
    assert_eq!(hits[1].operands.len(), 3);
    let bad = vec![decorate(4, spirv::DECORATION_BLOCK, None), inst(spirv::OP_DECORATE, None, None, vec![])];
    assert!(matches!(
        Reflection::find_annotations_for_id(&bad, 4),
        Err(ReflectError::OperandIndexError(_, OperandKind::IdRef, 0, 0))
    ));
}

#[test]
fn descriptor_type_codes_and_names() {
    assert_eq!(DescriptorType::UNIFORM_BUFFER.code(), 6);
    assert_eq!(DescriptorType::ACCELERATION_STRUCTURE_NV.code(), 1_000_165_000);
    assert_eq!(DescriptorType::from_code(7), DescriptorType::STORAGE_BUFFER);
    assert_eq!(DescriptorType::from_code(1_000_138_000), DescriptorType::INLINE_UNIFORM_BLOCK_EXT);
    assert_eq!(DescriptorType::from_code(42), DescriptorType::Unknown(42));
    assert_eq!(DescriptorType::from_code(42).code(), 42);
    assert_eq!(DescriptorType::STORAGE_IMAGE.name(), "STORAGE_IMAGE");
    assert_eq!(DescriptorType::Unknown(42).name(), "(UNDEFINED)");
    assert_eq!(DescriptorType::Unknown(0).name(), "SAMPLER");
    assert_eq!(DescriptorType::Unknown(6), DescriptorType::UNIFORM_BUFFER);
    assert_ne!(DescriptorType::Unknown(42), DescriptorType::UNIFORM_BUFFER);
    assert_ne!(DescriptorType::STORAGE_BUFFER, DescriptorType::UNIFORM_BUFFER);
}

#[test]
fn duplicate_slot_is_an_abort() {
    let mut m = base((1, 0));
    m.types_global_values.push(storage_image(3));
    variable(&mut m, 50, 3, spirv::STORAGE_CLASS_UNIFORM_CONSTANT, Some(0), Some(0));
    variable(&mut m, 51, 3, spirv::STORAGE_CLASS_UNIFORM_CONSTANT, Some(0), Some(0));
    let reflect = Reflection::new(m);
    assert!(!reflect.descriptor_sets_abort_free());
    assert!(reflect.push_constant_range_abort_free());
}

#[test]
fn duplicate_decoration_and_missing_block_are_aborts() {
    let mut m = base((1, 0));
    m.types_global_values.push(storage_image(3));
    variable(&mut m, 50, 3, spirv::STORAGE_CLASS_UNIFORM_CONSTANT, Some(0), Some(0));
    m.annotations.push(decorate(50, spirv::DECORATION_BINDING, Some(4)));
    assert!(!Reflection::new(m).descriptor_sets_abort_free());
    let m = struct_module((1, 5), &[], spirv::STORAGE_CLASS_UNIFORM);
    assert!(!Reflection::new(m).descriptor_sets_abort_free());
    let m = struct_module((1, 5), &[spirv::DECORATION_BLOCK], spirv::STORAGE_CLASS_UNIFORM);
    let reflect = Reflection::new(m);
    assert!(reflect.descriptor_sets_abort_free());
    assert!(reflect.get_descriptor_sets().is_ok());
}

#[test]
fn cyclic_type_is_an_abort() {
    let mut m = base((1, 0));
    // An array whose element type is itself.
    m.types_global_values.push(inst(spirv::OP_CONSTANT, Some(1), Some(40), vec![Operand::LiteralInt32(2)]));
    m.types_global_values.push(inst(
        spirv::OP_TYPE_ARRAY,
        None,
        Some(41),
        vec![Operand::IdRef(41), Operand::IdRef(40)],
    ));
    variable(&mut m, 50, 41, spirv::STORAGE_CLASS_UNIFORM_CONSTANT, Some(0), Some(0));
    assert!(!Reflection::new(m).descriptor_sets_abort_free());
}

#[test]
fn push_constant_aborts() {
    // The pointer's storage class is not PushConstant.
    let mut m = base((1, 0));
    m.types_global_values.push(inst(
        spirv::OP_TYPE_POINTER,
        None,
        Some(60),
        vec![Operand::StorageClass(spirv::STORAGE_CLASS_UNIFORM), Operand::IdRef(2)],
    ));
    m.types_global_values.push(inst(
        spirv::OP_VARIABLE,
        Some(60),
        Some(61),
        vec![Operand::StorageClass(spirv::STORAGE_CLASS_PUSH_CONSTANT)],
    ));
    assert!(!Reflection::new(m).push_constant_range_abort_free());
    // A size past 32 bits.
    let mut m = base((1, 0));
    m.types_global_values.push(inst(spirv::OP_CONSTANT, Some(1), Some(40), vec![Operand::LiteralInt32(0x8000_0000)]));
    m.types_global_values.push(inst(
        spirv::OP_TYPE_ARRAY,
        None,
        Some(41),
        vec![Operand::IdRef(2), Operand::IdRef(40)],
    ));
    push_constant_of(&mut m, 50, 41);
    assert!(!Reflection::new(m).push_constant_range_abort_free());
    let mut m = base((1, 0));
    push_constant_of(&mut m, 50, 2);
    let reflect = Reflection::new(m);
    assert!(reflect.push_constant_range_abort_free());
    assert_eq!(reflect.get_push_constant_range().unwrap().unwrap().size, 4);
}

#[test]
fn single_member_offset_and_size() {
    let m = base((1, 0));
    let single = inst(spirv::OP_TYPE_STRUCT, None, None, vec![Operand::IdRef(2)]);
    assert!(matches!(Reflection::byte_offset_to_last_var(&m, &single), Ok(0)));
    let fuel = m.types_global_values.len();
    assert!(matches!(Reflection::calculate_variable_size_bytes(&m, &single, fuel), Reflected::Done(4)));
    let two = inst(spirv::OP_TYPE_STRUCT, None, None, vec![Operand::IdRef(2), Operand::IdRef(2)]);
    assert!(matches!(Reflection::byte_offset_to_last_var(&m, &two), Err(ReflectError::MissingResultId(_))));
}
