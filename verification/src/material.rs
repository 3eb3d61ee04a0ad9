//! The choice that a transparent surface makes.

use vstd::prelude::*;

verus! {

/// What a transparent surface does with a ray.
#[derive(Clone, Copy, Debug, PartialEq, Eq, Structural)]
pub enum Bend {
    /// The ray is mirrored at the surface.
    Reflect,
    /// The ray passes through the surface and changes direction.
    Refract,
}

/// A ray that cannot be refracted, because it meets the surface too flatly from
/// inside the denser medium, is always reflected. One that can be refracted is
/// reflected where the random draw lies below the reflectance of the surface,
/// and refracted otherwise.
pub open spec fn bend_choice(can_refract: bool, draw_below_reflectance: bool) -> Bend {
    if can_refract && !draw_below_reflectance {
        Bend::Refract
    } else {
        Bend::Reflect
    }
}

/// Chooses between reflection and refraction at a transparent surface.
pub fn choose_bend(can_refract: bool, draw_below_reflectance: bool) -> (bend: Bend)
    ensures
        bend == bend_choice(can_refract, draw_below_reflectance),
{
    if !can_refract {
        Bend::Reflect
    } else if draw_below_reflectance {
        Bend::Reflect
    } else {
        Bend::Refract
    }
}

} // verus!
