use ray_trace_challenge::material::{Material, Rgb, UNIT};
use ray_trace_challenge::matrix::Matrix;
use ray_trace_challenge::pattern::{first_in_cell, Pattern, PatternType};
use ray_trace_challenge::shading::{secondary_rays, SecondaryRays};
use ray_trace_challenge::sphere::Sphere;
use ray_trace_challenge::tree::{Node, Tree};
use ray_trace_challenge::vec3::VecType;

type M = Matrix<f64>;

#[test]
fn point_minus_point_is_a_vector() {
    assert_eq!(VecType::Point.difference(VecType::Point), Some(VecType::Vector));
    assert_eq!(VecType::Point.difference(VecType::Vector), Some(VecType::Point));
    assert_eq!(VecType::Vector.difference(VecType::Vector), Some(VecType::Vector));
    assert_eq!(VecType::Vector.difference(VecType::Point), None);
}

#[test]
fn two_points_never_add() {
    assert_eq!(VecType::Point.sum(VecType::Point), None);
    assert_eq!(VecType::Point.sum(VecType::Vector), Some(VecType::Point));
    assert_eq!(VecType::Vector.sum(VecType::Point), Some(VecType::Point));
    assert_eq!(VecType::Vector.sum(VecType::Vector), Some(VecType::Vector));
    assert_eq!(VecType::Colour.sum(VecType::Colour), Some(VecType::Vector));
}

#[test]
fn default_material() {
    let m: Material<M> = Material::default();
    assert_eq!(m.ambient, 100);
    assert_eq!(m.colour, Rgb::white());
    assert_eq!(m.diffuse, 900);
    assert_eq!(m.reflective, 0);
    assert_eq!(m.refractive_index, UNIT);
    assert_eq!(m.shininess, 200_000);
    assert_eq!(m.specular, 900);
    assert_eq!(m.transparency, 0);
    assert!(m.pattern.is_none());
}

#[test]
fn glass_sphere() {
    let s: Sphere<M> = Sphere::glass();
    assert_eq!(s.material.transparency, 1000);
    assert_eq!(s.material.refractive_index, 1500);
    assert_eq!(s.material.diffuse, 900);
    assert!(s.transform.is_none());
    assert!(s.parent.is_none());
}

#[test]
fn new_sphere_and_setters() {
    let mut s: Sphere<M> = Sphere::new();
    assert_eq!(s.material, Material::default());
    s.set_transform(Matrix::identity(4, 0.0, 1.0));
    assert_eq!(s.transform, Some(Matrix::identity(4, 0.0, 1.0)));
    let mut m = Material::default();
    m.ambient = 1000;
    s.set_material(m.clone());
    assert_eq!(s.material, m);
}

#[test]
fn stripes_alternate_in_x() {
    assert!(first_in_cell(PatternType::Stripe, 0, 0, 0));
    assert!(!first_in_cell(PatternType::Stripe, 1, 0, 0));
    assert!(!first_in_cell(PatternType::Stripe, -1, 0, 0));
    assert!(first_in_cell(PatternType::Stripe, -2, 5, 5));
}

#[test]
fn rings_alternate_with_radius() {
    assert!(first_in_cell(PatternType::Ring, 0, 0, 0));
    assert!(!first_in_cell(PatternType::Ring, 1, 0, 0));
}

#[test]
fn checker_uses_parity_of_the_cell_sum() {
    assert!(first_in_cell(PatternType::Checker, 0, 0, 0));
    assert!(!first_in_cell(PatternType::Checker, 1, 0, 0));
    assert!(!first_in_cell(PatternType::Checker, 0, 1, 0));
    assert!(!first_in_cell(PatternType::Checker, 0, 0, 1));
    assert!(first_in_cell(PatternType::Checker, 2, 0, 0));
    assert!(first_in_cell(PatternType::Checker, 1, 1, 0));
    assert!(first_in_cell(PatternType::Checker, -1, 0, 1));
    assert!(!first_in_cell(PatternType::Checker, i64::MAX, 0, 0));
}

#[test]
fn pattern_constructors() {
    let (w, b) = (Rgb::white(), Rgb::black());
    let mut p: Pattern<M> = Pattern::stripe(w, b, false);
    assert_eq!(p, Pattern::new(PatternType::Stripe, w, b, false));
    assert_eq!(Pattern::<M>::checker(w, b, true).is, PatternType::Checker);
    assert_eq!(Pattern::<M>::ring(w, b, true).is, PatternType::Ring);
    assert_eq!(Pattern::<M>::gradient(b, w, false).a, b);
    assert!(p.transform().is_none());
    p.set_transform(Matrix::identity(4, 0.0, 1.0));
    assert_eq!(p.transform(), &Some(Matrix::identity(4, 0.0, 1.0)));
    assert_eq!(Rgb::new(800, 1000, 600).green, 1000);
}

#[test]
fn secondary_rays_follow_the_material_and_budget() {
    let mut m: Material<M> = Material::default();
    assert_eq!(
        secondary_rays(&m, 4),
        SecondaryRays { reflect: false, refract: false, fresnel_blend: false, remaining: 3 }
    );
    m.reflective = 500;
    m.transparency = 500;
    assert_eq!(
        secondary_rays(&m, 4),
        SecondaryRays { reflect: true, refract: true, fresnel_blend: true, remaining: 3 }
    );
    assert_eq!(
        secondary_rays(&m, 0),
        SecondaryRays { reflect: false, refract: false, fresnel_blend: true, remaining: 0 }
    );
}

#[test]
fn tree_links_parents_and_children() {
    let mut t = Tree::new("root");
    let g = t.add_child(0, "group");
    let s = t.add_child(g, "sphere");
    let p = t.add_child(0, "plane");
    assert_eq!((g, s, p), (1, 2, 3));
    assert_eq!(t.len(), 4);
    assert_eq!(t.parent(s), Some(g));
    assert_eq!(t.parent(0), None);
    assert_eq!(t.children(0), &vec![1, 3]);
    assert_eq!(t.children(g), &vec![2]);
    assert_eq!(*t.get(s), "sphere");
    assert_eq!(t.ancestors(s), vec![2, 1, 0]);
    assert_eq!(t.ancestors(0), vec![0]);
}

#[test]
fn fresh_node_is_detached() {
    let n = Node::new(5u8);
    assert_eq!(n.parent, None);
    assert!(n.children.is_empty());
    assert_eq!(n.data, 5);
}
