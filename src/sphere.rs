use vstd::prelude::*;
use crate::material::{Material, UNIT, is_default_material};

verus! {

/// The unit sphere at the origin, placed in the scene by an optional
/// transform of type `X`. `parent` is the handle of the group it belongs to
/// in the scene tree, if any.
#[derive(Clone, Debug, PartialEq)]
pub struct Sphere<X> {
    pub material: Material<X>,
    pub parent: Option<usize>,
    pub transform: Option<X>,
}

impl<X> Default for Sphere<X> {
    fn default() -> (s: Sphere<X>)
        ensures
            is_default_material(s.material),
            s.parent is None,
            s.transform is None,
    {
        Sphere { material: Material::default(), parent: None, transform: None }
    }
}

impl<X> Sphere<X> {
    /// An untransformed sphere of the default material.
    pub fn new() -> (s: Sphere<X>)
        ensures
            is_default_material(s.material),
            s.parent is None,
            s.transform is None,
    {
        Sphere::default()
    }

    /// An untransformed sphere of glass: the default material made fully
    /// transparent, with refractive index 1.5.
    pub fn glass() -> (s: Sphere<X>)
        ensures
            s.material.transparency == UNIT,
            s.material.refractive_index == 1500,
            s.material.ambient == 100,
            s.material.colour == crate::material::Rgb::spec_white(),
            s.material.diffuse == 900,
            s.material.reflective == 0,
            s.material.shininess == 200 * UNIT,
            s.material.specular == 900,
            s.material.pattern is None,
            s.parent is None,
            s.transform is None,
    {
        let mut material = Material::default();
        material.transparency = UNIT;
        material.refractive_index = 1500;
        Sphere { material, parent: None, transform: None }
    }

    /// Places the sphere by `transform`.
    pub fn set_transform(&mut self, transform: X)
        ensures
            final(self).transform == Some(transform),
            final(self).material == old(self).material,
            final(self).parent == old(self).parent,
    {
        self.transform = Some(transform);
    }

    /// Gives the sphere `material`.
    pub fn set_material(&mut self, material: Material<X>)
        ensures
            final(self).material == material,
            final(self).transform == old(self).transform,
            final(self).parent == old(self).parent,
    {
        self.material = material;
    }
}

} // verus!
