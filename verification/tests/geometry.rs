use light_visibility::geometry::{mul_wide, Aabb, BoundingVolume, IVec3, Plane, Sphere};

#[test]
fn products_of_extreme_coordinates_fit() {
    assert_eq!(mul_wide(i32::MIN, i32::MIN), 1i64 << 62);
    assert_eq!(mul_wide(i32::MIN, i32::MAX), -(1i64 << 62) + (1i64 << 31));
    assert_eq!(mul_wide(-3, 7), -21);
}

#[test]
fn dot_product_of_extreme_vectors() {
    let least = IVec3::new(i32::MIN, i32::MIN, i32::MIN);
    assert_eq!(least.dot(&least), 3i128 << 62);
    assert_eq!(least.length_squared(), 3u64 << 62);
    let a = IVec3::new(1, -2, 3);
    let b = IVec3::new(4, 5, -6);
    assert_eq!(a.dot(&b), 4 - 10 - 18);
    assert_eq!(a.length_squared(), 14);
}

#[test]
fn sum_and_opposite_of_vectors() {
    let a = IVec3::new(1, -2, 3);
    let b = IVec3::new(4, 5, -6);
    assert_eq!(a.plus(&b), IVec3::new(5, 3, -3));
    assert_eq!(a.negated(), IVec3::new(-1, 2, -3));
}

#[test]
fn empty_and_point_boxes() {
    let p = IVec3::new(5, 0, 0);
    let b = Aabb::point(p);
    assert_eq!(b.min, p);
    assert_eq!(b.max, p);
    assert!(b.is_non_empty());
    let inverted = Aabb { min: IVec3::new(1, 0, 0), max: IVec3::new(0, 0, 0) };
    assert!(!inverted.is_non_empty());
}

#[test]
fn plane_holds_its_boundary() {
    let plane = Plane { normal: IVec3::new(1, 0, 0), distance: 10 };
    assert!(plane.contains(&IVec3::new(9, 100, -100)));
    assert!(plane.contains(&IVec3::new(10, 0, 0)));
    assert!(!plane.contains(&IVec3::new(11, 0, 0)));
}

#[test]
fn plane_rejects_box_by_its_deepest_corner() {
    // x + y <= 10: the corner (3, 4) of the box is the deepest one.
    let plane = Plane { normal: IVec3::new(1, 1, 0), distance: 10 };
    let touching = Aabb { min: IVec3::new(3, 7, -5), max: IVec3::new(8, 9, 5) };
    assert!(!plane.rejects_aabb(&touching));
    let beyond = Aabb { min: IVec3::new(3, 8, -5), max: IVec3::new(8, 9, 5) };
    assert!(plane.rejects_aabb(&beyond));
    // With a negative normal the deepest corner is the greatest one.
    let plane = Plane { normal: IVec3::new(-1, 0, 0), distance: -10 };
    let reaching = Aabb { min: IVec3::new(0, 0, 0), max: IVec3::new(10, 0, 0) };
    assert!(!plane.rejects_aabb(&reaching));
    let short = Aabb { min: IVec3::new(0, 0, 0), max: IVec3::new(9, 0, 0) };
    assert!(plane.rejects_aabb(&short));
}

#[test]
fn plane_rejects_sphere_by_its_radius() {
    // The normal (3, 4, 0) has length 5; the center (10, 0, 0) has offset 30.
    let plane = Plane { normal: IVec3::new(3, 4, 0), distance: 0 };
    let center = IVec3::new(10, 0, 0);
    assert!(plane.rejects_sphere(&Sphere { center, radius: 5 }));
    assert!(!plane.rejects_sphere(&Sphere { center, radius: 6 }));
    assert!(!plane.rejects_sphere(&Sphere { center, radius: 7 }));
    // A center on the inner side is never rejected.
    assert!(!plane.rejects_sphere(&Sphere { center: IVec3::new(-1, 0, 0), radius: 0 }));
    assert!(!plane.rejects_sphere(&Sphere { center: IVec3::new(0, 0, 0), radius: 0 }));
    assert!(plane.rejects_sphere(&Sphere { center: IVec3::new(1, 0, 0), radius: 0 }));
}

#[test]
fn plane_rejects_sphere_at_the_limits() {
    let plane = Plane {
        normal: IVec3::new(i32::MIN, i32::MIN, i32::MIN),
        distance: i64::MIN,
    };
    let center = IVec3::new(i32::MIN, i32::MIN, i32::MIN);
    // The offset is 3 * 2^62 + 2^63, beyond 2^64: no ball reaches that far.
    assert!(plane.rejects_sphere(&Sphere { center, radius: u32::MAX }));
    let plane = Plane { normal: IVec3::new(i32::MAX, 0, 0), distance: 0 };
    let center = IVec3::new(i32::MAX, 0, 0);
    // The offset is (2^31 - 1)^2, the reach radius * (2^31 - 1).
    assert!(plane.rejects_sphere(&Sphere { center, radius: i32::MAX as u32 - 1 }));
    assert!(!plane.rejects_sphere(&Sphere { center, radius: i32::MAX as u32 }));
}

#[test]
fn plane_rejects_either_kind_of_volume() {
    let plane = Plane { normal: IVec3::new(0, 1, 0), distance: 0 };
    let above = IVec3::new(0, 3, 0);
    assert!(plane.rejects(&BoundingVolume::Aabb(Aabb::point(above))));
    assert!(plane.rejects(&BoundingVolume::Sphere(Sphere { center: above, radius: 2 })));
    assert!(!plane.rejects(&BoundingVolume::Sphere(Sphere { center: above, radius: 3 })));
    let reaching = Aabb { min: IVec3::new(0, 0, 0), max: above };
    assert!(!plane.rejects(&BoundingVolume::Aabb(reaching)));
}
