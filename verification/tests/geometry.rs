use rusty_painter::geom::capsule_hit;

#[test]
fn point_capsule_is_a_disc() {
    // squared distance against 5 * 5
    assert!(capsule_hit(3, 4, 0, 0, 0, 0, 5));
    assert!(capsule_hit(5, 0, 0, 0, 0, 0, 5));
    assert!(capsule_hit(0, 0, 0, 0, 0, 0, 5));
    assert!(!capsule_hit(4, 4, 0, 0, 0, 0, 5));
    assert!(!capsule_hit(6, 0, 0, 0, 0, 0, 5));
}

#[test]
fn capsule_midsection_measures_distance_to_the_line() {
    // horizontal segment from (0, 0) to (10, 0), radius 3
    assert!(capsule_hit(5, 3, 0, 0, 10, 0, 3));
    assert!(!capsule_hit(5, 4, 0, 0, 10, 0, 3));
    assert!(capsule_hit(5, -3, 0, 0, 10, 0, 3));
    assert!(!capsule_hit(5, -4, 0, 0, 10, 0, 3));
}

#[test]
fn capsule_caps_are_round() {
    // past the endpoints the boundary is a disc around the endpoint
    assert!(capsule_hit(-2, 2, 0, 0, 10, 0, 3));
    assert!(!capsule_hit(-2, 3, 0, 0, 10, 0, 3));
    assert!(capsule_hit(12, -2, 0, 0, 10, 0, 3));
    assert!(!capsule_hit(13, 2, 0, 0, 10, 0, 3));
}

#[test]
fn diagonal_capsule_is_symmetric() {
    // segment from (0, 0) to (8, 8); (1, 7) and (7, 1) lie at the same distance
    assert_eq!(
        capsule_hit(1, 7, 0, 0, 8, 8, 4),
        capsule_hit(7, 1, 0, 0, 8, 8, 4),
    );
    assert!(capsule_hit(2, 6, 0, 0, 8, 8, 3));
    assert!(!capsule_hit(0, 8, 0, 0, 8, 8, 5));
    assert!(capsule_hit(0, 8, 0, 0, 8, 8, 6));
}
