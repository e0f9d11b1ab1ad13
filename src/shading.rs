use vstd::prelude::*;
use crate::material::Material;

verus! {

/// What shading a hit spawns beyond direct lighting.
#[derive(Copy, Clone, Debug, PartialEq, Eq, Structural)]
pub struct SecondaryRays {
    /// Cast a reflected ray.
    pub reflect: bool,
    /// Cast a refracted ray.
    pub refract: bool,
    /// Weigh reflection against refraction by the Schlick reflectance
    /// instead of adding them.
    pub fresnel_blend: bool,
    /// Bounce budget handed to the secondary rays.
    pub remaining: usize,
}

/// Decides the secondary rays of a hit on a surface of material `m` with
/// `remaining` bounces left. No ray is spawned once the budget is spent or
/// where the matching coefficient is zero, and every spawned ray gets one
/// bounce less.
pub fn secondary_rays<X>(m: &Material<X>, remaining: usize) -> (r: SecondaryRays)
    ensures
        r.reflect == (remaining >= 1 && m.reflective != 0),
        r.refract == (remaining >= 1 && m.transparency != 0),
        r.fresnel_blend == (m.reflective > 0 && m.transparency > 0),
        r.remaining == if remaining >= 1 { remaining - 1 } else { 0 },
{
    let next = if remaining >= 1 { remaining - 1 } else { 0 };
    SecondaryRays {
        reflect: remaining >= 1 && m.reflective != 0,
        refract: remaining >= 1 && m.transparency != 0,
        fresnel_blend: m.reflective > 0 && m.transparency > 0,
        remaining: next,
    }
}

} // verus!
