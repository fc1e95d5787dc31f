//! The value types that travel from the library to the device: the scalar
//! kind and width of a vertex attribute, and tagged uniform values.
use vstd::prelude::*;

verus! {

/// The scalar type of the elements of a buffer.
#[derive(Clone, Copy, Debug, PartialEq, Eq, Structural)]
pub enum ScalarKind {
    Byte,
    UnsignedByte,
    Short,
    UnsignedShort,
    Int,
    UnsignedInt,
    Float,
    Double,
    Bool,
}

impl ScalarKind {
    pub open spec fn spec_is_integer(self) -> bool {
        !(self is Float || self is Double || self is Bool)
    }

    /// Integer attributes are handed to the shader as integers, not
    /// converted to floating point; booleans are converted.
    pub fn is_integer(self) -> (r: bool)
        ensures
            r == self.spec_is_integer(),
    {
        match self {
            ScalarKind::Float | ScalarKind::Double | ScalarKind::Bool => false,
            _ => true,
        }
    }

    pub open spec fn spec_is_index_type(self) -> bool {
        self is UnsignedByte || self is UnsignedShort || self is UnsignedInt
    }

    /// The scalar types that an index buffer may hold.
    pub fn is_index_type(self) -> (r: bool)
        ensures
            r == self.spec_is_index_type(),
    {
        match self {
            ScalarKind::UnsignedByte | ScalarKind::UnsignedShort | ScalarKind::UnsignedInt => true,
            _ => false,
        }
    }
}

/// How one element of a buffer reads as a vertex attribute: `count` scalars
/// of kind `scalar`.
#[derive(Clone, Copy, Debug, PartialEq, Eq, Structural)]
pub struct AttribLayout {
    pub count: i32,
    pub scalar: ScalarKind,
}

/// A uniform value tagged with its shader type. Floating-point components
/// are carried as their IEEE-754 bit patterns; `Unset` stands for "no value".
#[derive(Clone, Copy, Debug, PartialEq)]
pub enum GLSLAny {
    Unset,
    Float(u32),
    Vec2([u32; 2]),
    Vec3([u32; 3]),
    Vec4([u32; 4]),
    Int(i32),
    Ivec2([i32; 2]),
    Ivec3([i32; 3]),
    Ivec4([i32; 4]),
    Uint(u32),
    Uvec2([u32; 2]),
    Uvec3([u32; 3]),
    Uvec4([u32; 4]),
    Bool(bool),
    Bvec2([bool; 2]),
    Bvec3([bool; 3]),
    Bvec4([bool; 4]),
    Mat2([u32; 4]),
    Mat3([u32; 9]),
    Mat4([u32; 16]),
    Mat2x3([u32; 6]),
    Mat3x2([u32; 6]),
    Mat2x4([u32; 8]),
    Mat4x2([u32; 8]),
    Mat3x4([u32; 12]),
    Mat4x3([u32; 12]),
}

impl GLSLAny {
    pub fn is_none(&self) -> (r: bool)
        ensures
            r == (*self is Unset),
    {
        match self {
            GLSLAny::Unset => true,
            _ => false,
        }
    }
}

} // verus!
