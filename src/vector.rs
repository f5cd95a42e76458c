use vstd::prelude::*;

verus! {

/// Two unsigned components.
#[derive(Clone, Copy, Debug, PartialEq, Eq, Structural, Default)]
pub struct UVec2 {
    pub x: u32,
    pub y: u32,
}

/// Three unsigned components.
#[derive(Clone, Copy, Debug, PartialEq, Eq, Structural, Default)]
pub struct UVec3 {
    pub x: u32,
    pub y: u32,
    pub z: u32,
}

/// Four unsigned components.
#[derive(Clone, Copy, Debug, PartialEq, Eq, Structural, Default)]
pub struct UVec4 {
    pub x: u32,
    pub y: u32,
    pub z: u32,
    pub w: u32,
}

/// Two signed components.
#[derive(Clone, Copy, Debug, PartialEq, Eq, Structural, Default)]
pub struct IVec2 {
    pub x: i32,
    pub y: i32,
}

/// Three signed components.
#[derive(Clone, Copy, Debug, PartialEq, Eq, Structural, Default)]
pub struct IVec3 {
    pub x: i32,
    pub y: i32,
    pub z: i32,
}

/// Four signed components.
#[derive(Clone, Copy, Debug, PartialEq, Eq, Structural, Default)]
pub struct IVec4 {
    pub x: i32,
    pub y: i32,
    pub z: i32,
    pub w: i32,
}

/// Two single-precision components, each held as its IEEE-754 bit pattern
/// (`f32::to_bits`), which is exactly what a GPU buffer stores.
#[derive(Clone, Copy, Debug, PartialEq, Eq, Structural, Default)]
pub struct Vec2 {
    pub x: u32,
    pub y: u32,
}

/// Three single-precision components as IEEE-754 bit patterns.
#[derive(Clone, Copy, Debug, PartialEq, Eq, Structural, Default)]
pub struct Vec3 {
    pub x: u32,
    pub y: u32,
    pub z: u32,
}

/// Four single-precision components as IEEE-754 bit patterns.
#[derive(Clone, Copy, Debug, PartialEq, Eq, Structural, Default)]
pub struct Vec4 {
    pub x: u32,
    pub y: u32,
    pub z: u32,
    pub w: u32,
}

/// A 3x3 single-precision matrix, stored column by column.
#[derive(Clone, Copy, Debug, PartialEq, Eq, Structural, Default)]
pub struct Mat3 {
    pub x_axis: Vec3,
    pub y_axis: Vec3,
    pub z_axis: Vec3,
}

/// A 4x4 single-precision matrix, stored column by column.
#[derive(Clone, Copy, Debug, PartialEq, Eq, Structural, Default)]
pub struct Mat4 {
    pub x_axis: Vec4,
    pub y_axis: Vec4,
    pub z_axis: Vec4,
    pub w_axis: Vec4,
}

impl UVec2 {
    /// The 32-bit words this vector is stored as, in component order.
    pub open spec fn words(self) -> Seq<u32> {
        seq![self.x, self.y]
    }
}

impl UVec3 {
    /// The 32-bit words this vector is stored as, in component order.
    pub open spec fn words(self) -> Seq<u32> {
        seq![self.x, self.y, self.z]
    }
}

impl UVec4 {
    /// The 32-bit words this vector is stored as, in component order.
    pub open spec fn words(self) -> Seq<u32> {
        seq![self.x, self.y, self.z, self.w]
    }
}

impl IVec2 {
    /// The 32-bit words this vector is stored as, in component order.
    pub open spec fn words(self) -> Seq<u32> {
        seq![i32_bits(self.x), i32_bits(self.y)]
    }
}

impl IVec3 {
    /// The 32-bit words this vector is stored as, in component order.
    pub open spec fn words(self) -> Seq<u32> {
        seq![i32_bits(self.x), i32_bits(self.y), i32_bits(self.z)]
    }
}

impl IVec4 {
    /// The 32-bit words this vector is stored as, in component order.
    pub open spec fn words(self) -> Seq<u32> {
        seq![i32_bits(self.x), i32_bits(self.y), i32_bits(self.z), i32_bits(self.w)]
    }
}

impl Vec2 {
    /// The 32-bit words this vector is stored as, in component order.
    pub open spec fn words(self) -> Seq<u32> {
        seq![self.x, self.y]
    }
}

impl Vec3 {
    /// The 32-bit words this vector is stored as, in component order.
    pub open spec fn words(self) -> Seq<u32> {
        seq![self.x, self.y, self.z]
    }
}

impl Vec4 {
    /// The 32-bit words this vector is stored as, in component order.
    pub open spec fn words(self) -> Seq<u32> {
        seq![self.x, self.y, self.z, self.w]
    }
}

/// The bit pattern of a signed 32-bit integer in two's complement.
pub open spec fn i32_bits(v: i32) -> u32 {
    if v >= 0 {
        v as u32
    } else {
        (v + 0x1_0000_0000) as u32
    }
}

/// Computes `i32_bits`.
pub fn i32_to_bits(v: i32) -> (r: u32)
    ensures
        r == i32_bits(v),
{
    if v >= 0 {
        v as u32
    } else {
        ((v as i64) + 0x1_0000_0000i64) as u32
    }
}

} // verus!
