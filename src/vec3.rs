use vstd::prelude::*;

verus! {

/// What a three-component quantity stands for.
#[derive(Copy, Clone, Debug, PartialEq, Eq, Structural)]
pub enum VecType {
    Vector,
    Point,
    Colour,
}

/// The tag of `a + b`, or `None` where the sum is forbidden (two points).
pub open spec fn sum_tag(a: VecType, b: VecType) -> Option<VecType> {
    match (a, b) {
        (VecType::Point, VecType::Point) => None,
        (VecType::Point, VecType::Vector) => Some(VecType::Point),
        (VecType::Vector, VecType::Point) => Some(VecType::Point),
        _ => Some(VecType::Vector),
    }
}

/// The tag of `a - b`, or `None` where the difference is forbidden
/// (a point taken from a vector).
pub open spec fn difference_tag(a: VecType, b: VecType) -> Option<VecType> {
    match (a, b) {
        (VecType::Point, VecType::Vector) => Some(VecType::Point),
        (VecType::Vector, VecType::Point) => None,
        _ => Some(VecType::Vector),
    }
}

impl VecType {
    /// Tag of the sum of a quantity tagged `self` and one tagged `rhs`.
    pub fn sum(self, rhs: VecType) -> (r: Option<VecType>)
        ensures
            r == sum_tag(self, rhs),
    {
        match (self, rhs) {
            (VecType::Point, VecType::Point) => None,
            (VecType::Point, VecType::Vector) => Some(VecType::Point),
            (VecType::Vector, VecType::Point) => Some(VecType::Point),
            _ => Some(VecType::Vector),
        }
    }

    /// Tag of the difference of a quantity tagged `self` and one tagged `rhs`.
    pub fn difference(self, rhs: VecType) -> (r: Option<VecType>)
        ensures
            r == difference_tag(self, rhs),
    {
        match (self, rhs) {
            (VecType::Point, VecType::Vector) => Some(VecType::Point),
            (VecType::Vector, VecType::Point) => None,
            _ => Some(VecType::Vector),
        }
    }
}

/// Point arithmetic: the difference of two points is a vector, a point less
/// a vector is a point, and two points never add.
pub proof fn lemma_point_algebra(p: VecType, q: VecType, v: VecType)
    requires
        p == VecType::Point,
        q == VecType::Point,
        v == VecType::Vector,
    ensures
        difference_tag(p, q) == Some(VecType::Vector),
        difference_tag(p, v) == Some(VecType::Point),
        sum_tag(p, q) is None,
{
}

} // verus!
