use rspirv_reflect::module::{Instruction, Module, Operand};
use rspirv_reflect::reflection::{descriptor_slots, Reflection};
use rspirv_reflect::spirv;
use rspirv_reflect::types::{BindingCount, DescriptorInfo, DescriptorType, PushConstantInfo};

fn inst(opcode: u32, result_type: Option<u32>, result_id: Option<u32>, operands: Vec<Operand>) -> Instruction {
    Instruction { opcode, result_type, result_id, operands }
}

fn decorate(target: u32, decoration: u32, value: Option<u32>) -> Instruction {
    let mut operands = vec![Operand::IdRef(target), Operand::Decoration(decoration)];
    if let Some(v) = value {
        operands.push(Operand::LiteralInt32(v));
    }
    inst(spirv::OP_DECORATE, None, None, operands)
}

fn name(target: u32, text: &str) -> Instruction {
    inst(spirv::OP_NAME, None, None, vec![Operand::IdRef(target), Operand::LiteralString(text.to_string())])
}

fn image(id: u32, dim: u32, sampled: u32) -> Instruction {
    inst(
        spirv::OP_TYPE_IMAGE,
        None,
        Some(id),
        vec![
            Operand::IdRef(2),
            Operand::Dim(dim),
            Operand::LiteralInt32(0),
            Operand::LiteralInt32(0),
            Operand::LiteralInt32(0),
            Operand::LiteralInt32(sampled),
            Operand::Other,
        ],
    )
}

fn constant(id: u32, value: u32) -> Instruction {
    inst(spirv::OP_CONSTANT, Some(1), Some(id), vec![Operand::LiteralInt32(value)])
}

fn array(id: u32, element: u32, length: u32) -> Instruction {
    inst(spirv::OP_TYPE_ARRAY, None, Some(id), vec![Operand::IdRef(element), Operand::IdRef(length)])
}

fn empty_module(version: (u8, u8)) -> Module {
    Module {
        version: Some(version),
        execution_modes: vec![],
        debug_names: vec![],
        annotations: vec![],
        types_global_values: vec![
            inst(spirv::OP_TYPE_INT, None, Some(1), vec![Operand::LiteralInt32(32), Operand::LiteralInt32(0)]),
            inst(spirv::OP_TYPE_FLOAT, None, Some(2), vec![Operand::LiteralInt32(32)]),
        ],
    }
}

/// Adds a pointer type and a variable of storage class `sc` to `pointee`, bound to
/// `(set, binding)` and named `var_name`.
fn add_variable(m: &mut Module, var: u32, pointee: u32, sc: u32, set: u32, binding: u32, var_name: &str) {
    let ptr = var + 1000;
    m.types_global_values.push(inst(
        spirv::OP_TYPE_POINTER,
        None,
        Some(ptr),
        vec![Operand::StorageClass(sc), Operand::IdRef(pointee)],
    ));
    m.types_global_values.push(inst(spirv::OP_VARIABLE, Some(ptr), Some(var), vec![Operand::StorageClass(sc)]));
    m.annotations.push(decorate(var, spirv::DECORATION_DESCRIPTOR_SET, Some(set)));
    m.annotations.push(decorate(var, spirv::DECORATION_BINDING, Some(binding)));
    m.debug_names.push(name(var, var_name));
}

/// A module with the resources of a typical GLSL shader, at version 1.0.
fn glsl_module() -> Module {
    let mut m = empty_module((1, 0));
    let types = vec![
        image(3, spirv::DIM_2D, 2),
        image(4, spirv::DIM_2D, 1),
        inst(spirv::OP_TYPE_SAMPLED_IMAGE, None, Some(5), vec![Operand::IdRef(4)]),
        image(6, spirv::DIM_BUFFER, 2),
        image(7, spirv::DIM_BUFFER, 1),
        inst(spirv::OP_TYPE_SAMPLED_IMAGE, None, Some(8), vec![Operand::IdRef(7)]),
        inst(spirv::OP_TYPE_STRUCT, None, Some(9), vec![Operand::IdRef(2)]),
        inst(spirv::OP_TYPE_STRUCT, None, Some(10), vec![Operand::IdRef(2)]),
        inst(spirv::OP_TYPE_STRUCT, None, Some(12), vec![Operand::IdRef(2)]),
        inst(spirv::OP_TYPE_RUNTIME_ARRAY, None, Some(13), vec![Operand::IdRef(12)]),
        constant(20, 10),
        constant(21, 6),
        constant(22, 1),
        constant(23, 11),
        array(30, 3, 20),
        array(31, 4, 20),
        array(32, 3, 21),
        array(33, 4, 22),
        array(34, 9, 23),
    ];
    m.types_global_values.extend(types);
    m.annotations.push(decorate(9, spirv::DECORATION_BLOCK, None));
    m.annotations.push(decorate(10, spirv::DECORATION_BUFFER_BLOCK, None));
    m.annotations.push(decorate(12, spirv::DECORATION_BUFFER_BLOCK, None));
    let uc = spirv::STORAGE_CLASS_UNIFORM_CONSTANT;
    let u = spirv::STORAGE_CLASS_UNIFORM;
    add_variable(&mut m, 100, 9, u, 0, 0, "uniformBlock");
    add_variable(&mut m, 101, 3, uc, 1, 0, "g_rimage2d");
    add_variable(&mut m, 102, 3, uc, 1, 1, "g_wimage2d");
    add_variable(&mut m, 103, 3, uc, 1, 2, "g_rwimage2d");
    add_variable(&mut m, 104, 4, uc, 2, 0, "g_texture2d");
    add_variable(&mut m, 105, 30, uc, 3, 0, "g_multiple_rwimage2d");
    add_variable(&mut m, 106, 31, uc, 3, 1, "g_multiple_texture2d");
    add_variable(&mut m, 107, 32, uc, 4, 0, "g_bindless_rwimage2d");
    add_variable(&mut m, 108, 33, uc, 4, 1, "g_bindless_texture2d");
    add_variable(&mut m, 109, 34, u, 4, 2, "g_bindless_buffer");
    add_variable(&mut m, 110, 5, uc, 5, 0, "g_samplerimage2d");
    add_variable(&mut m, 111, 6, uc, 6, 0, "g_imagebuffer");
    add_variable(&mut m, 112, 8, uc, 6, 1, "g_samplerbuffer");
    add_variable(&mut m, 113, 13, u, 6, 2, "g_storageBuffer");
    add_variable(&mut m, 114, 10, u, 6, 3, "bufferBlock");
    m
}

fn info(n: &str, ty: DescriptorType, binding_count: BindingCount) -> DescriptorInfo {
    DescriptorInfo { name: n.to_string(), ty, binding_count }
}

#[test]
fn glsl_style_bindings() {
    let reflect = Reflection::new(glsl_module());
    let sets = reflect.get_descriptor_sets().expect("Failed to extract descriptor sets");
    let expected = vec![
        (0, 0, info("uniformBlock", DescriptorType::UNIFORM_BUFFER, BindingCount::One)),
        (1, 0, info("g_rimage2d", DescriptorType::STORAGE_IMAGE, BindingCount::One)),
        (1, 1, info("g_wimage2d", DescriptorType::STORAGE_IMAGE, BindingCount::One)),
        (1, 2, info("g_rwimage2d", DescriptorType::STORAGE_IMAGE, BindingCount::One)),
        (2, 0, info("g_texture2d", DescriptorType::SAMPLED_IMAGE, BindingCount::One)),
        (3, 0, info("g_multiple_rwimage2d", DescriptorType::STORAGE_IMAGE, BindingCount::StaticSized(10))),
        (3, 1, info("g_multiple_texture2d", DescriptorType::SAMPLED_IMAGE, BindingCount::StaticSized(10))),
        (4, 0, info("g_bindless_rwimage2d", DescriptorType::STORAGE_IMAGE, BindingCount::StaticSized(6))),
        (4, 1, info("g_bindless_texture2d", DescriptorType::SAMPLED_IMAGE, BindingCount::StaticSized(1))),
        (4, 2, info("g_bindless_buffer", DescriptorType::UNIFORM_BUFFER, BindingCount::StaticSized(11))),
        (5, 0, info("g_samplerimage2d", DescriptorType::COMBINED_IMAGE_SAMPLER, BindingCount::One)),
        (6, 0, info("g_imagebuffer", DescriptorType::STORAGE_TEXEL_BUFFER, BindingCount::One)),
        (6, 1, info("g_samplerbuffer", DescriptorType::UNIFORM_TEXEL_BUFFER, BindingCount::One)),
        (6, 2, info("g_storageBuffer", DescriptorType::STORAGE_BUFFER, BindingCount::Unbounded)),
        (6, 3, info("bufferBlock", DescriptorType::STORAGE_BUFFER, BindingCount::One)),
    ];
    for (set, binding, want) in &expected {
        assert_eq!(&sets[set][binding], want, "slot ({}, {})", set, binding);
    }
    let total: usize = sets.values().map(|s| s.len()).sum();
    assert_eq!(total, expected.len());
}

#[test]
fn descriptor_sets_iterate_in_ascending_order() {
    let reflect = Reflection::new(glsl_module());
    let sets = reflect.get_descriptor_sets().unwrap();
    let set_keys: Vec<u32> = sets.keys().copied().collect();
    assert_eq!(set_keys, vec![0, 1, 2, 3, 4, 5, 6]);
    for bindings in sets.values() {
        let keys: Vec<u32> = bindings.keys().copied().collect();
        assert!(keys.windows(2).all(|w| w[0] < w[1]));
    }
    let six: Vec<u32> = sets[&6].keys().copied().collect();
    assert_eq!(six, vec![0, 1, 2, 3]);
    let slots = descriptor_slots(&sets);
    assert_eq!(
        slots,
        vec![
            (0, 0), (1, 0), (1, 1), (1, 2), (2, 0), (3, 0), (3, 1), (4, 0), (4, 1), (4, 2), (5, 0),
            (6, 0), (6, 1), (6, 2), (6, 3),
        ]
    );
}

#[test]
fn glsl_style_push_constant_of_sixteen_bytes() {
    let mut m = empty_module((1, 0));
    m.types_global_values.push(inst(
        spirv::OP_TYPE_VECTOR,
        None,
        Some(3),
        vec![Operand::IdRef(2), Operand::LiteralInt32(2)],
    ));
    m.types_global_values.push(inst(
        spirv::OP_TYPE_STRUCT,
        None,
        Some(4),
        vec![Operand::IdRef(3), Operand::IdRef(3)],
    ));
    m.annotations.push(inst(
        spirv::OP_MEMBER_DECORATE,
        None,
        None,
        vec![Operand::IdRef(4), Operand::LiteralInt32(0), Operand::Decoration(spirv::DECORATION_OFFSET), Operand::LiteralInt32(0)],
    ));
    m.annotations.push(inst(
        spirv::OP_MEMBER_DECORATE,
        None,
        None,
        vec![Operand::IdRef(4), Operand::LiteralInt32(1), Operand::Decoration(spirv::DECORATION_OFFSET), Operand::LiteralInt32(8)],
    ));
    let pc = spirv::STORAGE_CLASS_PUSH_CONSTANT;
    m.types_global_values.push(inst(
        spirv::OP_TYPE_POINTER,
        None,
        Some(5),
        vec![Operand::StorageClass(pc), Operand::IdRef(4)],
    ));
    m.types_global_values.push(inst(spirv::OP_VARIABLE, Some(5), Some(6), vec![Operand::StorageClass(pc)]));
    let reflect = Reflection::new(m);
    let range = reflect
        .get_push_constant_range()
        .expect("failed to extract push constants")
        .expect("defined push constants not detected");
    assert_eq!(range, PushConstantInfo { offset: 0, size: 16 });
}

#[test]
fn push_constant_of_four_hundred_four_bytes() {
    // struct { mat4 at 0; float[85] at 64 }: 64 + 85 * 4 = 404.
    let mut m = empty_module((1, 5));
    let t = &mut m.types_global_values;
    t.push(inst(spirv::OP_TYPE_VECTOR, None, Some(3), vec![Operand::IdRef(2), Operand::LiteralInt32(4)]));
    t.push(inst(spirv::OP_TYPE_MATRIX, None, Some(4), vec![Operand::IdRef(3), Operand::LiteralInt32(4)]));
    t.push(constant(5, 85));
    t.push(array(6, 2, 5));
    t.push(inst(spirv::OP_TYPE_STRUCT, None, Some(7), vec![Operand::IdRef(4), Operand::IdRef(6)]));
    let pc = spirv::STORAGE_CLASS_PUSH_CONSTANT;
    t.push(inst(spirv::OP_TYPE_POINTER, None, Some(8), vec![Operand::StorageClass(pc), Operand::IdRef(7)]));
    t.push(inst(spirv::OP_VARIABLE, Some(8), Some(9), vec![Operand::StorageClass(pc)]));
    m.annotations.push(inst(
        spirv::OP_MEMBER_DECORATE,
        None,
        None,
        vec![Operand::IdRef(7), Operand::LiteralInt32(1), Operand::Decoration(spirv::DECORATION_OFFSET), Operand::LiteralInt32(64)],
    ));
    let range = Reflection::new(m).get_push_constant_range().unwrap().unwrap();
    assert_eq!(range.size, 404);
    assert_eq!(range.offset, 0);
}
