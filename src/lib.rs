//! Reflection over SPIR-V modules: the descriptor bindings a shader consumes, its push-constant
//! range and its compute workgroup size.
pub mod spirv;
pub mod module;
pub mod error;
pub mod types;
pub mod access;
pub mod reflection;
pub mod classify;
pub mod size;
pub mod loader;
pub mod laws;

pub use error::ReflectError;
pub use module::{Instruction, Module, Operand, OperandKind};
pub use reflection::Reflection;
pub use types::{BindingCount, DescriptorInfo, DescriptorType, PushConstantInfo};
