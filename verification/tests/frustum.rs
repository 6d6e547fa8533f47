use light_visibility::cubemap::CubemapFrusta;
use light_visibility::face::{CubeFace, FACE_COUNT};
use light_visibility::frustum::Frustum;
use light_visibility::projection::{OrthographicBox, PerspectiveProjection};
use light_visibility::geometry::{Aabb, BoundingVolume, IVec3, Plane, Sphere};

const FACES: [CubeFace; 6] = [
    CubeFace::PosX,
    CubeFace::NegX,
    CubeFace::PosY,
    CubeFace::NegY,
    CubeFace::PosZ,
    CubeFace::NegZ,
];

fn point(x: i32, y: i32, z: i32) -> BoundingVolume {
    BoundingVolume::Aabb(Aabb::point(IVec3::new(x, y, z)))
}

#[test]
fn faces_are_numbered_in_order() {
    assert_eq!(FACE_COUNT, 6);
    for (i, face) in FACES.iter().enumerate() {
        assert_eq!(face.index(), i);
        assert_eq!(CubeFace::from_index(i), Some(*face));
    }
    assert_eq!(CubeFace::from_index(6), None);
    assert_eq!(CubeFace::from_index(usize::MAX), None);
}

#[test]
fn face_frames_are_right_handed() {
    for face in FACES {
        let (r, u, f) = (face.right(), face.up(), face.forward());
        assert_eq!(r.dot(&r), 1);
        assert_eq!(u.dot(&u), 1);
        assert_eq!(f.dot(&f), 1);
        assert_eq!(r.dot(&u), 0);
        assert_eq!(r.dot(&f), 0);
        assert_eq!(u.dot(&f), 0);
        // right x up is the reverse of forward
        let cross = IVec3::new(
            r.y * u.z - r.z * u.y,
            r.z * u.x - r.x * u.z,
            r.x * u.y - r.y * u.x,
        );
        assert_eq!(cross, f.negated());
    }
    assert_eq!(CubeFace::NegZ.forward(), IVec3::new(0, 0, -1));
    assert_eq!(CubeFace::NegZ.right(), IVec3::new(1, 0, 0));
    assert_eq!(CubeFace::NegZ.up(), IVec3::new(0, 1, 0));
}

#[test]
fn empty_frustum_rejects_everything() {
    let empty = Frustum::empty();
    assert_eq!(empty, Frustum::default());
    for plane in empty.planes {
        assert_eq!(plane, Plane::nowhere());
        assert_eq!(plane, Plane { normal: IVec3::new(0, 0, 0), distance: -1 });
    }
    assert!(!empty.contains(&IVec3::new(0, 0, 0)));
    assert!(!empty.intersects(&point(0, 0, 0)));
    let everything = Aabb {
        min: IVec3::new(i32::MIN, i32::MIN, i32::MIN),
        max: IVec3::new(i32::MAX, i32::MAX, i32::MAX),
    };
    assert!(!empty.intersects(&BoundingVolume::Aabb(everything)));
    let ball = Sphere { center: IVec3::new(0, 0, 0), radius: u32::MAX };
    assert!(!empty.intersects(&BoundingVolume::Sphere(ball)));
}

#[test]
fn cube_face_planes() {
    let origin = IVec3::new(1, 2, 3);
    let frustum = Frustum::cube_face(&origin, CubeFace::PosX, 10);
    // right is +Z, up is +Y, forward is +X
    let expected = [
        Plane { normal: IVec3::new(-1, 0, 1), distance: 2 },
        Plane { normal: IVec3::new(-1, 0, -1), distance: -4 },
        Plane { normal: IVec3::new(-1, 1, 0), distance: 1 },
        Plane { normal: IVec3::new(-1, -1, 0), distance: -3 },
        Plane { normal: IVec3::new(-1, 0, 0), distance: -1 },
        Plane { normal: IVec3::new(1, 0, 0), distance: 11 },
    ];
    assert_eq!(frustum.planes, expected);
}

#[test]
fn cube_face_region() {
    let origin = IVec3::new(1, 2, 3);
    let frustum = Frustum::cube_face(&origin, CubeFace::PosX, 10);
    assert!(frustum.contains(&origin));
    assert!(frustum.contains(&IVec3::new(11, 2, 3)));
    assert!(!frustum.contains(&IVec3::new(12, 2, 3)));
    assert!(!frustum.contains(&IVec3::new(0, 2, 3)));
    // on the sides: as far sideways as ahead
    assert!(frustum.contains(&IVec3::new(6, 7, 3)));
    assert!(!frustum.contains(&IVec3::new(6, 8, 3)));
    assert!(frustum.contains(&IVec3::new(6, 2, -2)));
    assert!(!frustum.contains(&IVec3::new(6, 2, -3)));
    assert!(frustum.contains(&IVec3::new(11, 12, 13)));
}

#[test]
fn cube_face_without_range_is_empty() {
    let origin = IVec3::new(1, 2, 3);
    for face in FACES {
        assert_eq!(Frustum::cube_face(&origin, face, 0), Frustum::empty());
        assert_eq!(Frustum::cube_face(&origin, face, -5), Frustum::empty());
        assert_eq!(Frustum::cube_face(&origin, face, i32::MIN), Frustum::empty());
        assert!(!Frustum::cube_face(&origin, face, 0).intersects(&point(1, 2, 3)));
    }
}

#[test]
fn cube_face_at_the_limits() {
    let origin = IVec3::new(i32::MIN, i32::MAX, i32::MIN);
    for face in FACES {
        let frustum = Frustum::cube_face(&origin, face, i32::MAX);
        assert!(frustum.contains(&origin));
    }
    let frustum = Frustum::cube_face(&origin, CubeFace::PosX, i32::MAX);
    assert_eq!(frustum.planes[5].distance, i32::MIN as i64 + i32::MAX as i64);
    assert!(frustum.contains(&IVec3::new(-1, i32::MAX, i32::MIN)));
    assert!(!frustum.contains(&IVec3::new(0, i32::MAX, i32::MIN)));
}

#[test]
fn orthographic_planes() {
    let origin = IVec3::new(1, 2, 3);
    let extent = OrthographicBox { left: -4, right: 5, bottom: -6, top: 7, near: 1, far: 20 };
    let frustum = Frustum::orthographic(&origin, CubeFace::NegZ, &extent);
    // right is +X, up is +Y, forward is -Z
    let expected = [
        Plane { normal: IVec3::new(1, 0, 0), distance: 6 },
        Plane { normal: IVec3::new(-1, 0, 0), distance: 3 },
        Plane { normal: IVec3::new(0, 1, 0), distance: 9 },
        Plane { normal: IVec3::new(0, -1, 0), distance: 4 },
        Plane { normal: IVec3::new(0, 0, 1), distance: 2 },
        Plane { normal: IVec3::new(0, 0, -1), distance: 17 },
    ];
    assert_eq!(frustum.planes, expected);
    assert!(frustum.contains(&IVec3::new(-3, -4, 2)));
    assert!(frustum.contains(&IVec3::new(6, 9, -17)));
    assert!(!frustum.contains(&IVec3::new(7, 9, -17)));
    assert!(!frustum.contains(&IVec3::new(6, 9, -18)));
    assert!(!frustum.contains(&IVec3::new(1, 2, 3)));
}

#[test]
fn orthographic_degenerate_box_is_empty() {
    let origin = IVec3::new(0, 0, 0);
    let flat = OrthographicBox { left: 3, right: 3, bottom: -1, top: 1, near: 0, far: 10 };
    assert!(flat.is_degenerate());
    assert_eq!(Frustum::orthographic(&origin, CubeFace::PosY, &flat), Frustum::empty());
    let inverted = OrthographicBox { left: -1, right: 1, bottom: -1, top: 1, near: 10, far: 0 };
    assert!(inverted.is_degenerate());
    assert_eq!(Frustum::orthographic(&origin, CubeFace::PosY, &inverted), Frustum::empty());
    let thin = OrthographicBox { left: -1, right: 1, bottom: 1, top: -1, near: 0, far: 10 };
    assert!(thin.is_degenerate());
    let fine = OrthographicBox { left: -1, right: 1, bottom: -1, top: 1, near: 0, far: 10 };
    assert!(!fine.is_degenerate());
}

#[test]
fn orthographic_at_the_limits() {
    let origin = IVec3::new(i32::MIN, i32::MIN, i32::MIN);
    let extent = OrthographicBox {
        left: i32::MIN,
        right: i32::MAX,
        bottom: i32::MIN,
        top: i32::MAX,
        near: i32::MIN,
        far: i32::MAX,
    };
    let frustum = Frustum::orthographic(&origin, CubeFace::PosX, &extent);
    assert_eq!(frustum.planes[4].normal, IVec3::new(-1, 0, 0));
    assert_eq!(frustum.planes[4].distance, (1i64 << 31) + (1i64 << 31));
    assert!(frustum.contains(&origin));
    assert!(frustum.contains(&IVec3::new(-1, -1, -1)));
    assert!(!frustum.contains(&IVec3::new(0, -1, -1)));
}

#[test]
fn intersects_is_conservative_at_corners() {
    let origin = IVec3::new(0, 0, 0);
    let extent = OrthographicBox { left: -10, right: 10, bottom: -10, top: 10, near: 0, far: 10 };
    let frustum = Frustum::orthographic(&origin, CubeFace::NegZ, &extent);
    // inside, across a plane, and beyond a plane
    let inside = Aabb { min: IVec3::new(-1, -1, -5), max: IVec3::new(1, 1, -4) };
    assert!(frustum.intersects(&BoundingVolume::Aabb(inside)));
    let across = Aabb { min: IVec3::new(8, 0, -5), max: IVec3::new(20, 1, -4) };
    assert!(frustum.intersects(&BoundingVolume::Aabb(across)));
    let beyond = Aabb { min: IVec3::new(11, 0, -5), max: IVec3::new(20, 1, -4) };
    assert!(!frustum.intersects(&BoundingVolume::Aabb(beyond)));
    // a ball near a corner passes plane by plane although it misses the box
    let near_corner = Sphere { center: IVec3::new(17, 17, -5), radius: 8 };
    assert!(near_corner.radius * near_corner.radius < 7 * 7 + 7 * 7);
    assert!(frustum.intersects(&BoundingVolume::Sphere(near_corner)));
    let far_off = Sphere { center: IVec3::new(19, 17, -5), radius: 8 };
    assert!(!frustum.intersects(&BoundingVolume::Sphere(far_off)));
}

#[test]
fn six_faces_tile_the_cube_around_the_origin() {
    let origin = IVec3::new(3, -2, 7);
    let far = 4;
    let frusta = CubemapFrusta::new(&origin, far);
    for dx in -6..=6 {
        for dy in -6..=6 {
            for dz in -6..=6 {
                let p = IVec3::new(origin.x + dx, origin.y + dy, origin.z + dz);
                let holders: Vec<usize> =
                    (0..6).filter(|i| frusta.get(*i).contains(&p)).collect();
                let reach = dx.abs().max(dy.abs()).max(dz.abs());
                assert_eq!(!holders.is_empty(), reach <= far);
                if holders.len() > 1 {
                    // only on the sides: two coordinates tie for the greatest
                    let mut sizes = [dx.abs(), dy.abs(), dz.abs()];
                    sizes.sort();
                    assert_eq!(sizes[1], sizes[2]);
                }
                if holders.len() == 6 {
                    assert_eq!(p, origin);
                }
            }
        }
    }
    for i in 0..6 {
        assert!(frusta.get(i).contains(&origin));
        for k in 0..5 {
            let plane = frusta.get(i).planes[k];
            assert_eq!(plane.normal.dot(&origin), plane.distance as i128);
        }
    }
}

#[test]
fn cubemap_frusta_are_the_faces_in_order() {
    let origin = IVec3::new(3, -2, 7);
    let frusta = CubemapFrusta::new(&origin, 9);
    for (i, face) in FACES.iter().enumerate() {
        assert_eq!(*frusta.get(i), Frustum::cube_face(&origin, *face, 9));
    }
    let forward: Vec<Frustum> = frusta.iter().copied().collect();
    assert_eq!(forward.len(), 6);
    for (i, frustum) in forward.iter().enumerate() {
        assert_eq!(frustum, frusta.get(i));
    }
    let backward: Vec<Frustum> = frusta.iter().rev().copied().collect();
    for (i, frustum) in backward.iter().enumerate() {
        assert_eq!(frustum, frusta.get(5 - i));
    }
}

#[test]
fn cubemap_frusta_default_and_update() {
    let mut frusta = CubemapFrusta::default();
    for frustum in frusta.iter() {
        assert_eq!(*frustum, Frustum::empty());
    }
    assert_eq!(frusta, CubemapFrusta::new(&IVec3::new(0, 0, 0), 0));
    let origin = IVec3::new(1, 1, 1);
    frusta.update(&origin, 5);
    assert_eq!(frusta, CubemapFrusta::new(&origin, 5));
    frusta.update(&origin, 0);
    assert_eq!(frusta, CubemapFrusta::default());
}

#[test]
fn perspective_planes() {
    let origin = IVec3::new(1, 2, 3);
    let projection =
        PerspectiveProjection { half_width: 3, half_height: 2, depth: 5, near: 1, far: 20 };
    let frustum = Frustum::perspective(&origin, CubeFace::NegZ, &projection);
    // right is +X, up is +Y, forward is -Z
    let expected = [
        Plane { normal: IVec3::new(5, 0, 3), distance: 14 },
        Plane { normal: IVec3::new(-5, 0, 3), distance: 4 },
        Plane { normal: IVec3::new(0, 5, 2), distance: 16 },
        Plane { normal: IVec3::new(0, -5, 2), distance: -4 },
        Plane { normal: IVec3::new(0, 0, 1), distance: 2 },
        Plane { normal: IVec3::new(0, 0, -1), distance: 17 },
    ];
    assert_eq!(frustum.planes, expected);
}

#[test]
fn perspective_region() {
    let origin = IVec3::new(0, 0, 0);
    let projection =
        PerspectiveProjection { half_width: 1, half_height: 1, depth: 2, near: 1, far: 10 };
    let frustum = Frustum::perspective(&origin, CubeFace::NegZ, &projection);
    // half as far to the side as ahead
    assert!(frustum.contains(&IVec3::new(2, 0, -4)));
    assert!(!frustum.contains(&IVec3::new(3, 0, -4)));
    assert!(frustum.contains(&IVec3::new(-2, -2, -4)));
    assert!(!frustum.contains(&IVec3::new(-2, -3, -4)));
    // between near and far
    assert!(!frustum.contains(&origin));
    assert!(frustum.contains(&IVec3::new(0, 0, -1)));
    assert!(frustum.contains(&IVec3::new(5, 5, -10)));
    assert!(!frustum.contains(&IVec3::new(0, 0, -11)));
    assert!(!frustum.contains(&IVec3::new(0, 0, 4)));
}

#[test]
fn right_angled_perspective_is_the_cube_face() {
    let origin = IVec3::new(4, -4, 9);
    for face in FACES {
        let projection =
            PerspectiveProjection { half_width: 1, half_height: 1, depth: 1, near: 0, far: 7 };
        assert_eq!(
            Frustum::perspective(&origin, face, &projection),
            Frustum::cube_face(&origin, face, 7)
        );
    }
}

#[test]
fn perspective_degenerate_pyramid_is_empty() {
    let origin = IVec3::new(0, 0, 0);
    let fine = PerspectiveProjection { half_width: 1, half_height: 1, depth: 1, near: 0, far: 7 };
    assert!(!fine.is_degenerate());
    let shapes = [
        PerspectiveProjection { half_width: 0, ..fine },
        PerspectiveProjection { half_height: 0, ..fine },
        PerspectiveProjection { depth: 0, ..fine },
        PerspectiveProjection { far: 0, near: -5, ..fine },
        PerspectiveProjection { near: 7, ..fine },
        PerspectiveProjection { near: 8, ..fine },
    ];
    for shape in shapes {
        assert!(shape.is_degenerate());
        assert_eq!(Frustum::perspective(&origin, CubeFace::PosX, &shape), Frustum::empty());
    }
}

#[test]
fn perspective_at_the_limits() {
    let origin = IVec3::new(i32::MIN, i32::MIN, i32::MIN);
    let projection = PerspectiveProjection {
        half_width: u16::MAX,
        half_height: u16::MAX,
        depth: u16::MAX,
        near: i32::MIN,
        far: i32::MAX,
    };
    for face in FACES {
        let frustum = Frustum::perspective(&origin, face, &projection);
        assert!(frustum.contains(&origin));
    }
    let frustum = Frustum::perspective(&origin, CubeFace::PosX, &projection);
    assert_eq!(frustum.planes[0].normal, IVec3::new(-65535, 0, 65535));
    assert_eq!(frustum.planes[0].distance, 0);
    assert_eq!(frustum.planes[2].normal, IVec3::new(-65535, 65535, 0));
    assert_eq!(frustum.planes[4].distance, (1i64 << 31) + (1i64 << 31));
    assert!(frustum.contains(&IVec3::new(-1, i32::MIN, i32::MIN)));
    assert!(!frustum.contains(&IVec3::new(0, i32::MIN, i32::MIN)));
}
