//! The closed catalog of scalar and vector field kinds.
//!
//! Every kind is a fixed number of 32-bit lanes: scalars have one lane,
//! vectors two to four. The scalar flavour (float, signed, unsigned) only
//! records how a caller interprets the bit pattern; it never changes the
//! byte layout.

use vstd::prelude::*;

verus! {

/// One scalar or vector field kind of the catalog.
#[derive(Clone, Copy, PartialEq, Eq, Structural, Debug)]
pub enum PrimitiveKind {
    /// 32-bit float scalar.
    F32,
    /// 32-bit signed scalar.
    I32,
    /// 32-bit unsigned scalar.
    U32,
    /// Two-lane float vector.
    Vec2,
    /// Two-lane signed vector.
    IVec2,
    /// Two-lane unsigned vector.
    UVec2,
    /// Three-lane float vector.
    Vec3,
    /// Three-lane signed vector.
    IVec3,
    /// Three-lane unsigned vector.
    UVec3,
    /// Four-lane float vector.
    Vec4,
    /// Four-lane signed vector.
    IVec4,
    /// Four-lane unsigned vector.
    UVec4,
}

impl PrimitiveKind {
    /// Number of 32-bit lanes in one value of this kind.
    pub open spec fn spec_lanes(self) -> int {
        match self {
            PrimitiveKind::F32 => 1,
            PrimitiveKind::I32 => 1,
            PrimitiveKind::U32 => 1,
            PrimitiveKind::Vec2 => 2,
            PrimitiveKind::IVec2 => 2,
            PrimitiveKind::UVec2 => 2,
            PrimitiveKind::Vec3 => 3,
            PrimitiveKind::IVec3 => 3,
            PrimitiveKind::UVec3 => 3,
            PrimitiveKind::Vec4 => 4,
            PrimitiveKind::IVec4 => 4,
            PrimitiveKind::UVec4 => 4,
        }
    }

    /// Byte size of one value of this kind.
    pub open spec fn spec_size(self) -> int {
        4 * self.spec_lanes()
    }

    /// Number of 32-bit lanes in one value of this kind.
    pub fn lanes(&self) -> (r: u16)
        ensures
            r as int == self.spec_lanes(),
            1 <= r <= 4,
    {
        match self {
            PrimitiveKind::F32 => 1,
            PrimitiveKind::I32 => 1,
            PrimitiveKind::U32 => 1,
            PrimitiveKind::Vec2 => 2,
            PrimitiveKind::IVec2 => 2,
            PrimitiveKind::UVec2 => 2,
            PrimitiveKind::Vec3 => 3,
            PrimitiveKind::IVec3 => 3,
            PrimitiveKind::UVec3 => 3,
            PrimitiveKind::Vec4 => 4,
            PrimitiveKind::IVec4 => 4,
            PrimitiveKind::UVec4 => 4,
        }
    }

    /// Byte size of one value of this kind.
    pub fn size(&self) -> (r: u16)
        ensures
            r as int == self.spec_size(),
    {
        4 * self.lanes()
    }
}

} // verus!
