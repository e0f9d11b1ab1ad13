use vstd::prelude::*;
use crate::material::Rgb;

verus! {

/// The procedural colour functions a pattern can evaluate.
#[derive(Copy, Clone, Debug, PartialEq, Eq, Structural)]
pub enum PatternType {
    Checker,
    Gradient,
    Ring,
    Stripe,
    /// Shows the pattern-space point itself as a colour.
    Identity,
}

/// A two-colour procedural pattern with an optional transform of type `X`
/// and an optional noise perturbation of its input point.
#[derive(Clone, Debug, PartialEq)]
pub struct Pattern<X> {
    pub a: Rgb,
    pub b: Rgb,
    pub is: PatternType,
    pub perturb: bool,
    pub transform: Option<X>,
}

/// Whether an integer is even.
pub open spec fn even(n: int) -> bool {
    n % 2 == 0
}

/// Whether a band or cell pattern shows its first colour in the cell with
/// integer coordinates `(x, y, z)`. Stripes alternate with `x`, rings with
/// the distance from the y axis, passed as `x`, and a checker with the sum of
/// the three coordinates.
pub open spec fn shows_first(kind: PatternType, x: int, y: int, z: int) -> bool {
    match kind {
        PatternType::Checker => even(x + y + z),
        _ => even(x),
    }
}

impl<X> Pattern<X> {
    /// A pattern of kind `is` between `a` and `b`, untransformed.
    pub fn new(is: PatternType, a: Rgb, b: Rgb, perturb: bool) -> (p: Pattern<X>)
        ensures
            p.a == a,
            p.b == b,
            p.is == is,
            p.perturb == perturb,
            p.transform is None,
    {
        Pattern { a, b, is, perturb, transform: None }
    }

    /// A checker pattern between `a` and `b`.
    pub fn checker(a: Rgb, b: Rgb, perturb: bool) -> (p: Pattern<X>)
        ensures
            p == (Pattern::<X> { a, b, is: PatternType::Checker, perturb, transform: None }),
    {
        Pattern { a, b, perturb, is: PatternType::Checker, transform: None }
    }

    /// A gradient from `a` to `b` along x.
    pub fn gradient(a: Rgb, b: Rgb, perturb: bool) -> (p: Pattern<X>)
        ensures
            p == (Pattern::<X> { a, b, is: PatternType::Gradient, perturb, transform: None }),
    {
        Pattern { a, b, perturb, is: PatternType::Gradient, transform: None }
    }

    /// Concentric rings between `a` and `b` around the y axis.
    pub fn ring(a: Rgb, b: Rgb, perturb: bool) -> (p: Pattern<X>)
        ensures
            p == (Pattern::<X> { a, b, is: PatternType::Ring, perturb, transform: None }),
    {
        Pattern { a, b, perturb, is: PatternType::Ring, transform: None }
    }

    /// Stripes between `a` and `b` alternating along x.
    pub fn stripe(a: Rgb, b: Rgb, perturb: bool) -> (p: Pattern<X>)
        ensures
            p == (Pattern::<X> { a, b, is: PatternType::Stripe, perturb, transform: None }),
    {
        Pattern { a, b, perturb, is: PatternType::Stripe, transform: None }
    }

    /// The pattern's own transform.
    pub fn transform(&self) -> (r: &Option<X>)
        ensures
            *r == self.transform,
    {
        &self.transform
    }

    /// Gives the pattern a transform.
    pub fn set_transform(&mut self, t: X)
        ensures
            final(self).transform == Some(t),
            final(self).a == old(self).a,
            final(self).b == old(self).b,
            final(self).is == old(self).is,
            final(self).perturb == old(self).perturb,
    {
        self.transform = Some(t);
    }
}

/// Whether a stripe, ring or checker pattern shows its first colour in the
/// cell with integer coordinates `(x, y, z)` (the floors of the pattern-space
/// point; for rings, the floor of the distance from the y axis as `x`).
pub fn first_in_cell(kind: PatternType, x: i64, y: i64, z: i64) -> (r: bool)
    requires
        kind == PatternType::Stripe || kind == PatternType::Ring || kind == PatternType::Checker,
    ensures
        r == shows_first(kind, x as int, y as int, z as int),
{
    match kind {
        PatternType::Checker => {
            let s: i128 = x as i128 + y as i128 + z as i128;
            s % 2 == 0
        },
        _ => x % 2 == 0,
    }
}

} // verus!
