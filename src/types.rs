//! The values reflection reports.
use vstd::prelude::*;

verus! {

/// A Vulkan descriptor type. Each named variant stands for the `VkDescriptorType` code that
/// `code` gives; `Unknown` keeps any other code. Two descriptor types are equal when their codes
/// are, so `Unknown(6)` equals `UNIFORM_BUFFER`.
#[allow(non_camel_case_types)]
#[derive(Clone, Copy, Debug)]
pub enum DescriptorType {
    SAMPLER,
    COMBINED_IMAGE_SAMPLER,
    SAMPLED_IMAGE,
    STORAGE_IMAGE,
    UNIFORM_TEXEL_BUFFER,
    STORAGE_TEXEL_BUFFER,
    UNIFORM_BUFFER,
    STORAGE_BUFFER,
    UNIFORM_BUFFER_DYNAMIC,
    STORAGE_BUFFER_DYNAMIC,
    INPUT_ATTACHMENT,
    INLINE_UNIFORM_BLOCK_EXT,
    ACCELERATION_STRUCTURE_KHR,
    ACCELERATION_STRUCTURE_NV,
    Unknown(u32),
}

pub open spec fn spec_code(t: DescriptorType) -> u32 {
    match t {
        DescriptorType::SAMPLER => 0,
        DescriptorType::COMBINED_IMAGE_SAMPLER => 1,
        DescriptorType::SAMPLED_IMAGE => 2,
        DescriptorType::STORAGE_IMAGE => 3,
        DescriptorType::UNIFORM_TEXEL_BUFFER => 4,
        DescriptorType::STORAGE_TEXEL_BUFFER => 5,
        DescriptorType::UNIFORM_BUFFER => 6,
        DescriptorType::STORAGE_BUFFER => 7,
        DescriptorType::UNIFORM_BUFFER_DYNAMIC => 8,
        DescriptorType::STORAGE_BUFFER_DYNAMIC => 9,
        DescriptorType::INPUT_ATTACHMENT => 10,
        DescriptorType::INLINE_UNIFORM_BLOCK_EXT => 1_000_138_000,
        DescriptorType::ACCELERATION_STRUCTURE_KHR => 1_000_150_000,
        DescriptorType::ACCELERATION_STRUCTURE_NV => 1_000_165_000,
        DescriptorType::Unknown(c) => c,
    }
}

/// The named variant of a code, or `Unknown` for a code no variant names.
pub open spec fn spec_from_code(c: u32) -> DescriptorType {
    if c == 0 {
        DescriptorType::SAMPLER
    } else if c == 1 {
        DescriptorType::COMBINED_IMAGE_SAMPLER
    } else if c == 2 {
        DescriptorType::SAMPLED_IMAGE
    } else if c == 3 {
        DescriptorType::STORAGE_IMAGE
    } else if c == 4 {
        DescriptorType::UNIFORM_TEXEL_BUFFER
    } else if c == 5 {
        DescriptorType::STORAGE_TEXEL_BUFFER
    } else if c == 6 {
        DescriptorType::UNIFORM_BUFFER
    } else if c == 7 {
        DescriptorType::STORAGE_BUFFER
    } else if c == 8 {
        DescriptorType::UNIFORM_BUFFER_DYNAMIC
    } else if c == 9 {
        DescriptorType::STORAGE_BUFFER_DYNAMIC
    } else if c == 10 {
        DescriptorType::INPUT_ATTACHMENT
    } else if c == 1_000_138_000 {
        DescriptorType::INLINE_UNIFORM_BLOCK_EXT
    } else if c == 1_000_150_000 {
        DescriptorType::ACCELERATION_STRUCTURE_KHR
    } else if c == 1_000_165_000 {
        DescriptorType::ACCELERATION_STRUCTURE_NV
    } else {
        DescriptorType::Unknown(c)
    }
}

/// The name under which a code is printed.
pub open spec fn spec_type_name(c: u32) -> Seq<char> {
    match spec_from_code(c) {
        DescriptorType::SAMPLER => "SAMPLER"@,
        DescriptorType::COMBINED_IMAGE_SAMPLER => "COMBINED_IMAGE_SAMPLER"@,
        DescriptorType::SAMPLED_IMAGE => "SAMPLED_IMAGE"@,
        DescriptorType::STORAGE_IMAGE => "STORAGE_IMAGE"@,
        DescriptorType::UNIFORM_TEXEL_BUFFER => "UNIFORM_TEXEL_BUFFER"@,
        DescriptorType::STORAGE_TEXEL_BUFFER => "STORAGE_TEXEL_BUFFER"@,
        DescriptorType::UNIFORM_BUFFER => "UNIFORM_BUFFER"@,
        DescriptorType::STORAGE_BUFFER => "STORAGE_BUFFER"@,
        DescriptorType::UNIFORM_BUFFER_DYNAMIC => "UNIFORM_BUFFER_DYNAMIC"@,
        DescriptorType::STORAGE_BUFFER_DYNAMIC => "STORAGE_BUFFER_DYNAMIC"@,
        DescriptorType::INPUT_ATTACHMENT => "INPUT_ATTACHMENT"@,
        DescriptorType::INLINE_UNIFORM_BLOCK_EXT => "INLINE_UNIFORM_BLOCK_EXT"@,
        DescriptorType::ACCELERATION_STRUCTURE_KHR => "ACCELERATION_STRUCTURE_KHR"@,
        DescriptorType::ACCELERATION_STRUCTURE_NV => "ACCELERATION_STRUCTURE_NV"@,
        DescriptorType::Unknown(_) => "(UNDEFINED)"@,
    }
}

impl DescriptorType {
    /// The `VkDescriptorType` code.
    pub fn code(&self) -> (r: u32)
        ensures
            r == spec_code(*self),
    {
        match self {
            DescriptorType::SAMPLER => 0,
            DescriptorType::COMBINED_IMAGE_SAMPLER => 1,
            DescriptorType::SAMPLED_IMAGE => 2,
            DescriptorType::STORAGE_IMAGE => 3,
            DescriptorType::UNIFORM_TEXEL_BUFFER => 4,
            DescriptorType::STORAGE_TEXEL_BUFFER => 5,
            DescriptorType::UNIFORM_BUFFER => 6,
            DescriptorType::STORAGE_BUFFER => 7,
            DescriptorType::UNIFORM_BUFFER_DYNAMIC => 8,
            DescriptorType::STORAGE_BUFFER_DYNAMIC => 9,
            DescriptorType::INPUT_ATTACHMENT => 10,
            DescriptorType::INLINE_UNIFORM_BLOCK_EXT => 1_000_138_000,
            DescriptorType::ACCELERATION_STRUCTURE_KHR => 1_000_150_000,
            DescriptorType::ACCELERATION_STRUCTURE_NV => 1_000_165_000,
            DescriptorType::Unknown(c) => *c,
        }
    }

    /// The descriptor type of a `VkDescriptorType` code; every code is kept.
    pub fn from_code(c: u32) -> (r: DescriptorType)
        ensures
            r == spec_from_code(c),
            spec_code(r) == c,
    {
        if c == 0 {
            DescriptorType::SAMPLER
        } else if c == 1 {
            DescriptorType::COMBINED_IMAGE_SAMPLER
        } else if c == 2 {
            DescriptorType::SAMPLED_IMAGE
        } else if c == 3 {
            DescriptorType::STORAGE_IMAGE
        } else if c == 4 {
            DescriptorType::UNIFORM_TEXEL_BUFFER
        } else if c == 5 {
            DescriptorType::STORAGE_TEXEL_BUFFER
        } else if c == 6 {
            DescriptorType::UNIFORM_BUFFER
        } else if c == 7 {
            DescriptorType::STORAGE_BUFFER
        } else if c == 8 {
            DescriptorType::UNIFORM_BUFFER_DYNAMIC
        } else if c == 9 {
            DescriptorType::STORAGE_BUFFER_DYNAMIC
        } else if c == 10 {
            DescriptorType::INPUT_ATTACHMENT
        } else if c == 1_000_138_000 {
            DescriptorType::INLINE_UNIFORM_BLOCK_EXT
        } else if c == 1_000_150_000 {
            DescriptorType::ACCELERATION_STRUCTURE_KHR
        } else if c == 1_000_165_000 {
            DescriptorType::ACCELERATION_STRUCTURE_NV
        } else {
            DescriptorType::Unknown(c)
        }
    }

    /// The printed name of the type's code: the constant's name, or `(UNDEFINED)`.
    pub fn name(&self) -> (r: &'static str)
        ensures
            r@ == spec_type_name(spec_code(*self)),
    {
        let c = self.code();
        match DescriptorType::from_code(c) {
            DescriptorType::SAMPLER => "SAMPLER",
            DescriptorType::COMBINED_IMAGE_SAMPLER => "COMBINED_IMAGE_SAMPLER",
            DescriptorType::SAMPLED_IMAGE => "SAMPLED_IMAGE",
            DescriptorType::STORAGE_IMAGE => "STORAGE_IMAGE",
            DescriptorType::UNIFORM_TEXEL_BUFFER => "UNIFORM_TEXEL_BUFFER",
            DescriptorType::STORAGE_TEXEL_BUFFER => "STORAGE_TEXEL_BUFFER",
            DescriptorType::UNIFORM_BUFFER => "UNIFORM_BUFFER",
            DescriptorType::STORAGE_BUFFER => "STORAGE_BUFFER",
            DescriptorType::UNIFORM_BUFFER_DYNAMIC => "UNIFORM_BUFFER_DYNAMIC",
            DescriptorType::STORAGE_BUFFER_DYNAMIC => "STORAGE_BUFFER_DYNAMIC",
            DescriptorType::INPUT_ATTACHMENT => "INPUT_ATTACHMENT",
            DescriptorType::INLINE_UNIFORM_BLOCK_EXT => "INLINE_UNIFORM_BLOCK_EXT",
            DescriptorType::ACCELERATION_STRUCTURE_KHR => "ACCELERATION_STRUCTURE_KHR",
            DescriptorType::ACCELERATION_STRUCTURE_NV => "ACCELERATION_STRUCTURE_NV",
            DescriptorType::Unknown(_) => "(UNDEFINED)",
        }
    }
}

impl PartialEq for DescriptorType {
    fn eq(&self, o: &DescriptorType) -> (r: bool)
        ensures
            r == (spec_code(*self) == spec_code(*o)),
    {
        self.code() == o.code()
    }
}

impl vstd::std_specs::cmp::PartialEqSpecImpl for DescriptorType {
    open spec fn obeys_eq_spec() -> bool {
        true
    }

    open spec fn eq_spec(&self, o: &DescriptorType) -> bool {
        spec_code(*self) == spec_code(*o)
    }
}

impl Eq for DescriptorType {
}

/// How many resources a binding holds.
#[derive(Clone, Copy, Debug, PartialEq, Eq, Structural)]
pub enum BindingCount {
    /// A single resource binding.
    One,
    /// A fixed number of resource bindings, declared by an array length.
    StaticSized(usize),
    /// A number of resource bindings fixed only when the descriptor set layout is made
    /// ("bindless").
    Unbounded,
}

/// What reflection reports for one binding.
#[derive(Debug)]
pub struct DescriptorInfo {
    pub ty: DescriptorType,
    pub binding_count: BindingCount,
    /// The variable's debug name, empty when it has none.
    pub name: String,
}

pub struct DescriptorInfoView {
    pub ty: DescriptorType,
    pub binding_count: BindingCount,
    pub name: Seq<char>,
}

impl View for DescriptorInfo {
    type V = DescriptorInfoView;

    open spec fn view(&self) -> DescriptorInfoView {
        DescriptorInfoView { ty: self.ty, binding_count: self.binding_count, name: self.name@ }
    }
}

impl Clone for DescriptorInfo {
    fn clone(&self) -> (r: Self)
        ensures
            r == *self,
    {
        DescriptorInfo { ty: self.ty, binding_count: self.binding_count, name: self.name.clone() }
    }
}

/// Equal codes, counts and names.
pub open spec fn same_info(a: DescriptorInfo, b: DescriptorInfo) -> bool {
    spec_code(a.ty) == spec_code(b.ty) && a.binding_count == b.binding_count && a.name@ == b.name@
}

impl PartialEq for DescriptorInfo {
    fn eq(&self, o: &DescriptorInfo) -> (r: bool)
        ensures
            r == same_info(*self, *o),
    {
        self.ty == o.ty && self.binding_count == o.binding_count && self.name == o.name
    }
}

impl vstd::std_specs::cmp::PartialEqSpecImpl for DescriptorInfo {
    open spec fn obeys_eq_spec() -> bool {
        true
    }

    open spec fn eq_spec(&self, o: &DescriptorInfo) -> bool {
        same_info(*self, *o)
    }
}

impl Eq for DescriptorInfo {
}

/// The push-constant block of a shader: its byte offset and byte size.
#[derive(Clone, Copy, Debug, PartialEq, Eq, Structural)]
pub struct PushConstantInfo {
    pub offset: u32,
    pub size: u32,
}

} // verus!
