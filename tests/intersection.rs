use ray_trace_challenge::intersection::{hit, refractive_indices, AIR_INDEX};

#[test]
fn test_hit_positive() {
    assert_eq!(hit(&vec![1, 2]), Some(0));
}

#[test]
fn test_hit_mixed() {
    assert_eq!(hit(&vec![-1, 1]), Some(1));
}

#[test]
fn test_hit_negative() {
    assert_eq!(hit(&vec![-2, -1]), None);
}

#[test]
fn test_hit_lowest() {
    assert_eq!(hit(&vec![5, 7, -3, 2]), Some(3));
}

#[test]
fn hit_ignores_zero_and_takes_the_first_of_equals() {
    assert_eq!(hit(&vec![0, 4, 3, 3]), Some(2));
    assert_eq!(hit(&vec![0]), None);
    assert_eq!(hit(&vec![]), None);
}

#[test]
fn test_find_nx_at_intersections() {
    // a = 0 (index 1.5), b = 1 (index 2.0), c = 2 (index 2.5)
    let indices = vec![1500, 2000, 2500];
    let objects = vec![0, 1, 2, 1, 2, 0];
    for (i, n1, n2) in [
        (0, 1000, 1500),
        (1, 1500, 2000),
        (2, 2000, 2500),
        (3, 2500, 2500),
        (4, 2500, 1500),
        (5, 1500, 1000),
    ] {
        assert_eq!(refractive_indices(&objects, &indices, i), (n1, n2));
    }
}

#[test]
fn refraction_through_a_single_sphere() {
    let indices = vec![1500];
    let objects = vec![0, 0];
    assert_eq!(refractive_indices(&objects, &indices, 0), (AIR_INDEX, 1500));
    assert_eq!(refractive_indices(&objects, &indices, 1), (1500, AIR_INDEX));
}
