//! Surface materials: diffuse albedo plus emission.

use vstd::prelude::*;
use crate::fixed::SCALE;
use crate::vector::{Vec3, Vector};

verus! {

/// Largest supported emission power (16384 units), a machine limit that keeps
/// accumulated radiance representable.
pub const EMISSION_MAX: i64 = 0x4000_0000;

/// The mathematical value of a [`Material`].
pub ghost struct MaterialV {
    pub color: Vec3,
    pub roughness: int,
    pub emission_color: Vec3,
    pub emission_power: int,
}

/// A surface material: albedo color, roughness (reserved; the shading model is
/// diffuse), and an emissive term `emission_color * emission_power`.
/// A material with zero emission power is a pure diffuse reflector.
#[derive(Clone, Copy, Debug, PartialEq, Eq, Structural)]
pub struct Material {
    pub color: Vector,
    pub roughness: i64,
    pub emission_color: Vector,
    pub emission_power: i64,
}

impl View for Material {
    type V = MaterialV;

    open spec fn view(&self) -> MaterialV {
        MaterialV {
            color: self.color@,
            roughness: self.roughness as int,
            emission_color: self.emission_color@,
            emission_power: self.emission_power as int,
        }
    }
}

/// A color channel in `[0, 1]`.
pub open spec fn channel_in_unit(c: int) -> bool {
    0 <= c <= SCALE as int
}

/// Whether all channels of a color lie in `[0, 1]`.
pub open spec fn color_wf(c: Vec3) -> bool {
    channel_in_unit(c.x) && channel_in_unit(c.y) && channel_in_unit(c.z)
}

/// Validated ranges of a material: albedo and emission channels in `[0, 1]`,
/// roughness in `[0, 1]`, emission power nonnegative and within the supported
/// maximum.
pub open spec fn material_wf(m: MaterialV) -> bool {
    &&& color_wf(m.color)
    &&& 0 <= m.roughness <= SCALE as int
    &&& color_wf(m.emission_color)
    &&& 0 <= m.emission_power <= EMISSION_MAX as int
}

impl Material {
    /// A new material from validated components.
    pub fn new(color: Vector, roughness: i64, emission_color: Vector, emission_power: i64) -> (m:
        Material)
        requires
            color_wf(color@),
            0 <= roughness <= SCALE as int,
            color_wf(emission_color@),
            0 <= emission_power <= EMISSION_MAX as int,
        ensures
            m@ == (MaterialV {
                color: color@,
                roughness: roughness as int,
                emission_color: emission_color@,
                emission_power: emission_power as int,
            }),
            material_wf(m@),
    {
        Material { color, roughness, emission_color, emission_power }
    }
}

} // verus!
