use rspirv_reflect::error::ReflectError;
use rspirv_reflect::loader::check_admissible;
use rspirv_reflect::reflection::Reflection;
use rspirv_reflect::types::{BindingCount, DescriptorInfo, DescriptorType};

fn to_bytes(words: &[u32]) -> Vec<u8> {
    words.iter().flat_map(|w| w.to_le_bytes()).collect()
}

/// A SPIR-V 1.3 binary: one storage image `img` at set 1, binding 2, and a `LocalSize`
/// execution mode of 8 x 4 x 1.
fn small_binary() -> Vec<u8> {
    to_bytes(&[
        0x0723_0203, 0x0001_0300, 0, 100, 0,
        // OpExecutionMode %9 LocalSize 8 4 1
        0x0006_0010, 9, 17, 8, 4, 1,
        // OpName %4 "img"
        0x0003_0005, 4, 0x0067_6d69,
        // OpDecorate %4 DescriptorSet 1
        0x0004_0047, 4, 34, 1,
        // OpDecorate %4 Binding 2
        0x0004_0047, 4, 33, 2,
        // %1 = OpTypeFloat 32
        0x0003_0016, 1, 32,
        // %2 = OpTypeImage %1 2D 0 0 0 2 Rgba8
        0x0009_0019, 2, 1, 1, 0, 0, 0, 2, 4,
        // %3 = OpTypePointer UniformConstant %2
        0x0004_0020, 3, 0, 2,
        // %4 = OpVariable %3 UniformConstant
        0x0004_003b, 3, 4, 0,
    ])
}

#[test]
fn loads_a_binary() {
    let reflect = Reflection::new_from_spirv(&small_binary()).expect("Failed to create reflection module from spirv code");
    assert_eq!(reflect.0.version, Some((1, 3)));
    assert_eq!(reflect.0.types_global_values.len(), 4);
    let sets = reflect.get_descriptor_sets().expect("Failed to extract descriptor sets");
    assert_eq!(
        sets[&1][&2],
        DescriptorInfo { name: "img".to_string(), ty: DescriptorType::STORAGE_IMAGE, binding_count: BindingCount::One }
    );
    assert_eq!(sets.len(), 1);
    assert_eq!(reflect.get_compute_group_size(), Some((8, 4, 1)));
    assert!(matches!(reflect.get_push_constant_range(), Ok(None)));
}

#[test]
fn invalid_magic_is_a_parse_error() {
    let mut code = small_binary();
    code[0] = 0x04;
    assert!(matches!(Reflection::new_from_spirv(&code), Err(ReflectError::ParseError)));
    assert!(matches!(Reflection::new_from_spirv(&code[..12]), Err(ReflectError::ParseError)));
    assert!(matches!(Reflection::new_from_spirv(&[]), Err(ReflectError::ParseError)));
}

#[test]
fn header_only_binary_is_empty() {
    let code = to_bytes(&[0x0723_0203, 0x0001_0500, 0, 1, 0]);
    let reflect = Reflection::new_from_spirv(&code).unwrap();
    assert_eq!(reflect.0.version, Some((1, 5)));
    assert!(reflect.get_descriptor_sets().unwrap().is_empty());
    assert_eq!(reflect.get_compute_group_size(), None);
}

#[test]
fn instruction_running_past_the_end_is_a_parse_error() {
    // An OpName that declares 16 words where only 3 remain.
    let code = to_bytes(&[0x0723_0203, 0x0001_0000, 0, 10, 0, 0x0010_0005, 1, 0x61]);
    assert!(!check_admissible(&code));
    assert!(matches!(Reflection::new_from_spirv(&code), Err(ReflectError::ParseError)));
}

#[test]
fn framing_walks_by_word_counts() {
    assert!(check_admissible(&small_binary()));
    assert!(check_admissible(&to_bytes(&[0x0723_0203, 0x0001_0000, 0, 10, 0])));
    // Fewer than four bytes after the last instruction end the walk.
    let mut code = small_binary();
    code.extend([1u8, 2]);
    assert!(check_admissible(&code));
    // A zero word count ends the walk too.
    assert!(check_admissible(&to_bytes(&[0x0723_0203, 0x0001_0000, 0, 10, 0, 0x0000_0005, 0x0010_0005])));
    // The last instruction one word short.
    let mut code = small_binary();
    code.truncate(code.len() - 4);
    assert!(!check_admissible(&code));
    assert!(matches!(Reflection::new_from_spirv(&code), Err(ReflectError::ParseError)));
}

#[test]
fn version_comes_from_the_header() {
    let code = to_bytes(&[0x0723_0203, 0x0001_0400, 0, 1, 0]);
    assert_eq!(Reflection::new_from_spirv(&code).unwrap().0.version, Some((1, 4)));
}

#[test]
fn nested_context_operation_is_a_parse_error() {
    // OpSpecConstantOp whose operation is OpConstant.
    let code = to_bytes(&[0x0723_0203, 0x0001_0000, 0, 10, 0, 0x0004_0034, 1, 2, 43]);
    assert!(!check_admissible(&code));
    assert!(matches!(Reflection::new_from_spirv(&code), Err(ReflectError::ParseError)));
    // The operation is read from the low half of the word.
    let code = to_bytes(&[0x0723_0203, 0x0001_0000, 0, 10, 0, 0x0004_0034, 1, 2, 0x0001_00fb]);
    assert!(!check_admissible(&code));
    assert!(matches!(Reflection::new_from_spirv(&code), Err(ReflectError::ParseError)));
}

#[test]
fn other_spec_constant_operations_load() {
    // %1 = OpTypeInt 32 0; %2 = OpSpecConstantOp %1 IAdd %3 %4
    let code = to_bytes(&[
        0x0723_0203, 0x0001_0000, 0, 10, 0,
        0x0004_0015, 1, 32, 0,
        0x0006_0034, 1, 2, 128, 3, 4,
    ]);
    assert!(check_admissible(&code));
    let reflect = Reflection::new_from_spirv(&code).unwrap();
    assert_eq!(reflect.0.types_global_values.len(), 2);
    assert_eq!(reflect.0.types_global_values[1].opcode, 52);
    assert_eq!(reflect.0.types_global_values[1].result_id, Some(2));
}
