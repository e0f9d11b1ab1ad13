use vstd::prelude::*;
use crate::pattern::Pattern;

verus! {

/// The fixed-point unit: coefficients, indices and colour channels of a
/// material are counted in thousandths.
pub const UNIT: u32 = 1000;

/// A colour with channels in thousandths (`1000` is full intensity).
#[derive(Copy, Clone, Debug, PartialEq, Eq, Structural)]
pub struct Rgb {
    pub red: u32,
    pub green: u32,
    pub blue: u32,
}

impl Rgb {
    /// Full intensity on every channel.
    pub open spec fn spec_white() -> Rgb {
        Rgb { red: UNIT, green: UNIT, blue: UNIT }
    }

    /// A colour from its three channels, in thousandths.
    pub fn new(red: u32, green: u32, blue: u32) -> (c: Rgb)
        ensures
            c == (Rgb { red, green, blue }),
    {
        Rgb { red, green, blue }
    }

    /// Full intensity on every channel.
    pub fn white() -> (c: Rgb)
        ensures
            c == Rgb::spec_white(),
    {
        Rgb { red: UNIT, green: UNIT, blue: UNIT }
    }

    /// No light on any channel.
    pub fn black() -> (c: Rgb)
        ensures
            c == (Rgb { red: 0, green: 0, blue: 0 }),
    {
        Rgb { red: 0, green: 0, blue: 0 }
    }
}

/// Phong reflectance of a surface, with the scalars in thousandths, and an
/// optional pattern whose transform has type `X`.
#[derive(Clone, Debug, PartialEq)]
pub struct Material<X> {
    pub ambient: u32,
    pub colour: Rgb,
    pub diffuse: u32,
    pub reflective: u32,
    pub refractive_index: u32,
    pub shininess: u32,
    pub specular: u32,
    pub transparency: u32,
    pub pattern: Option<Pattern<X>>,
}

/// The default surface: ambient 0.1, white, diffuse 0.9, not reflective,
/// refractive index 1, shininess 200, specular 0.9, opaque, no pattern.
pub open spec fn is_default_material<X>(m: Material<X>) -> bool {
    &&& m.ambient == 100
    &&& m.colour == Rgb::spec_white()
    &&& m.diffuse == 900
    &&& m.reflective == 0
    &&& m.refractive_index == UNIT
    &&& m.shininess == 200 * UNIT
    &&& m.specular == 900
    &&& m.transparency == 0
    &&& m.pattern is None
}

impl<X> Default for Material<X> {
    fn default() -> (m: Material<X>)
        ensures
            is_default_material(m),
    {
        Material {
            ambient: 100,
            colour: Rgb::white(),
            diffuse: 900,
            reflective: 0,
            refractive_index: UNIT,
            shininess: 200 * UNIT,
            specular: 900,
            transparency: 0,
            pattern: None,
        }
    }
}

} // verus!
