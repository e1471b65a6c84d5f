//! Numeric codes of the SPIR-V opcodes and enumerants that reflection reads.
use vstd::prelude::*;

verus! {

pub const MAGIC_NUMBER: u32 = 0x0723_0203;

pub const OP_NAME: u32 = 5;
pub const OP_EXECUTION_MODE: u32 = 16;
pub const OP_TYPE_INT: u32 = 21;
pub const OP_TYPE_FLOAT: u32 = 22;
pub const OP_TYPE_VECTOR: u32 = 23;
pub const OP_TYPE_MATRIX: u32 = 24;
pub const OP_TYPE_IMAGE: u32 = 25;
pub const OP_TYPE_SAMPLER: u32 = 26;
pub const OP_TYPE_SAMPLED_IMAGE: u32 = 27;
pub const OP_TYPE_ARRAY: u32 = 28;
pub const OP_TYPE_RUNTIME_ARRAY: u32 = 29;
pub const OP_TYPE_STRUCT: u32 = 30;
pub const OP_TYPE_POINTER: u32 = 32;
pub const OP_CONSTANT: u32 = 43;
pub const OP_VARIABLE: u32 = 59;
pub const OP_DECORATE: u32 = 71;
pub const OP_MEMBER_DECORATE: u32 = 72;
pub const OP_TYPE_ACCELERATION_STRUCTURE_KHR: u32 = 5341;

pub const STORAGE_CLASS_UNIFORM_CONSTANT: u32 = 0;
pub const STORAGE_CLASS_INPUT: u32 = 1;
pub const STORAGE_CLASS_UNIFORM: u32 = 2;
pub const STORAGE_CLASS_OUTPUT: u32 = 3;
pub const STORAGE_CLASS_PUSH_CONSTANT: u32 = 9;
pub const STORAGE_CLASS_STORAGE_BUFFER: u32 = 12;

pub const DECORATION_BLOCK: u32 = 2;
pub const DECORATION_BUFFER_BLOCK: u32 = 3;
pub const DECORATION_BINDING: u32 = 33;
pub const DECORATION_DESCRIPTOR_SET: u32 = 34;
pub const DECORATION_OFFSET: u32 = 35;

pub const DIM_2D: u32 = 1;
pub const DIM_BUFFER: u32 = 5;
pub const DIM_SUBPASS_DATA: u32 = 6;

pub const EXECUTION_MODE_LOCAL_SIZE: u32 = 17;
pub const EXECUTION_MODE_LOCAL_SIZE_HINT: u32 = 18;

/// The `Sampled` operand of `OpTypeImage` for an image used with a sampler.
pub const IMAGE_SAMPLED: u32 = 1;
/// The `Sampled` operand of `OpTypeImage` for a storage image.
pub const IMAGE_STORAGE: u32 = 2;

} // verus!
