//! Frusta: regions bounded by six half-spaces, and the test of a bounding
//! volume against one.

use crate::face::{lemma_dot_with_unit, CubeFace};
use crate::geometry::{least_product, Aabb, BoundingVolume, IVec3, Plane};
use crate::projection::{
    along, in_cube_face, in_orthographic, in_perspective, OrthographicBox, PerspectiveProjection,
};
use vstd::prelude::*;

verus! {

/// The normal of a side of a perspective frustum: `depth` times the unit
/// vector `lateral` towards the side, less `reach` times the unit vector
/// `forward`. The points on its inner side are those that lie, for each
/// `depth` ahead, at most `reach` to the side.
pub open spec fn spec_side_normal(lateral: IVec3, forward: IVec3, depth: int, reach: int) -> IVec3 {
    IVec3::from_ints(
        lateral.x * depth - forward.x * reach,
        lateral.y * depth - forward.y * reach,
        lateral.z * depth - forward.z * reach,
    )
}

/// One coordinate of a side's normal.
fn side_coordinate(lateral: i32, forward: i32, depth: u16, reach: u16) -> (coordinate: i32)
    requires
        -1 <= lateral <= 1,
        -1 <= forward <= 1,
    ensures
        coordinate == lateral * depth - forward * reach,
        -0x2_0000 <= coordinate <= 0x2_0000,
{
    assert(-0xffff <= lateral * depth <= 0xffff && -0xffff <= forward * reach <= 0xffff)
        by (nonlinear_arith)
        requires
            -1 <= lateral <= 1,
            -1 <= forward <= 1,
            0 <= depth <= 0xffff,
            0 <= reach <= 0xffff,
    ;
    lateral * (depth as i32) - forward * (reach as i32)
}

/// The normal of a side of a perspective frustum.
fn side_normal(lateral: IVec3, forward: IVec3, depth: u16, reach: u16) -> (normal: IVec3)
    requires
        -1 <= lateral.x <= 1 && -1 <= lateral.y <= 1 && -1 <= lateral.z <= 1,
        -1 <= forward.x <= 1 && -1 <= forward.y <= 1 && -1 <= forward.z <= 1,
    ensures
        normal == spec_side_normal(lateral, forward, depth as int, reach as int),
        -0x2_0000 <= normal.x <= 0x2_0000,
        -0x2_0000 <= normal.y <= 0x2_0000,
        -0x2_0000 <= normal.z <= 0x2_0000,
{
    IVec3 {
        x: side_coordinate(lateral.x, forward.x, depth, reach),
        y: side_coordinate(lateral.y, forward.y, depth, reach),
        z: side_coordinate(lateral.z, forward.z, depth, reach),
    }
}

/// The distance along a side's normal, in terms of the distances along the
/// two unit vectors that the normal is made of.
proof fn lemma_along_side_normal(
    lateral: IVec3,
    forward: IVec3,
    depth: int,
    reach: int,
    origin: IVec3,
    p: IVec3,
)
    requires
        -1 <= lateral.x <= 1 && -1 <= lateral.y <= 1 && -1 <= lateral.z <= 1,
        -1 <= forward.x <= 1 && -1 <= forward.y <= 1 && -1 <= forward.z <= 1,
        0 <= depth <= 0xffff,
        0 <= reach <= 0xffff,
    ensures
        along(spec_side_normal(lateral, forward, depth, reach), origin, p) == depth * along(
            lateral,
            origin,
            p,
        ) - reach * along(forward, origin, p),
        -0x3_0000_0000_0000 <= spec_side_normal(lateral, forward, depth, reach).spec_dot(&origin)
            <= 0x3_0000_0000_0000,
{
    let n = spec_side_normal(lateral, forward, depth, reach);
    assert(-0xffff <= lateral.x * depth <= 0xffff && -0xffff <= forward.x * reach <= 0xffff
        && -0xffff <= lateral.y * depth <= 0xffff && -0xffff <= forward.y * reach <= 0xffff
        && -0xffff <= lateral.z * depth <= 0xffff && -0xffff <= forward.z * reach <= 0xffff)
        by (nonlinear_arith)
        requires
            -1 <= lateral.x <= 1 && -1 <= lateral.y <= 1 && -1 <= lateral.z <= 1,
            -1 <= forward.x <= 1 && -1 <= forward.y <= 1 && -1 <= forward.z <= 1,
            0 <= depth <= 0xffff,
            0 <= reach <= 0xffff,
    ;
    assert(n.x == lateral.x * depth - forward.x * reach);
    assert(n.y == lateral.y * depth - forward.y * reach);
    assert(n.z == lateral.z * depth - forward.z * reach);
    lemma_scaled_difference(lateral.x as int, forward.x as int, depth, reach, p.x as int);
    lemma_scaled_difference(lateral.y as int, forward.y as int, depth, reach, p.y as int);
    lemma_scaled_difference(lateral.z as int, forward.z as int, depth, reach, p.z as int);
    lemma_scaled_difference(lateral.x as int, forward.x as int, depth, reach, origin.x as int);
    lemma_scaled_difference(lateral.y as int, forward.y as int, depth, reach, origin.y as int);
    lemma_scaled_difference(lateral.z as int, forward.z as int, depth, reach, origin.z as int);
    lemma_distribute_three(
        depth,
        lateral.x * p.x,
        lateral.y * p.y,
        lateral.z * p.z,
        lateral.x * origin.x,
        lateral.y * origin.y,
        lateral.z * origin.z,
    );
    lemma_distribute_three(
        reach,
        forward.x * p.x,
        forward.y * p.y,
        forward.z * p.z,
        forward.x * origin.x,
        forward.y * origin.y,
        forward.z * origin.z,
    );
    assert(-0x2_0000 <= n.x <= 0x2_0000 && -0x2_0000 <= n.y <= 0x2_0000 && -0x2_0000 <= n.z
        <= 0x2_0000);
    assert(-0x1_0000_0000_0000 <= n.x * origin.x <= 0x1_0000_0000_0000 && -0x1_0000_0000_0000
        <= n.y * origin.y <= 0x1_0000_0000_0000 && -0x1_0000_0000_0000 <= n.z * origin.z
        <= 0x1_0000_0000_0000)
        by (nonlinear_arith)
        requires
            -0x2_0000 <= n.x <= 0x2_0000 && -0x2_0000 <= n.y <= 0x2_0000 && -0x2_0000 <= n.z
                <= 0x2_0000,
            -0x8000_0000 <= origin.x <= 0x7fff_ffff,
            -0x8000_0000 <= origin.y <= 0x7fff_ffff,
            -0x8000_0000 <= origin.z <= 0x7fff_ffff,
    ;
}

/// `(a * k - b * m) * t` is `k * (a * t) - m * (b * t)`.
proof fn lemma_scaled_difference(a: int, b: int, k: int, m: int, t: int)
    ensures
        (a * k - b * m) * t == k * (a * t) - m * (b * t),
{
    assert((a * k - b * m) * t == (a * k) * t - (b * m) * t) by (nonlinear_arith);
    assert((a * k) * t == k * (a * t)) by (nonlinear_arith);
    assert((b * m) * t == m * (b * t)) by (nonlinear_arith);
}

/// `k * (a + b + c - (d + e + f))` taken apart.
proof fn lemma_distribute_three(k: int, a: int, b: int, c: int, d: int, e: int, f: int)
    ensures
        k * (a + b + c - (d + e + f)) == k * a + k * b + k * c - (k * d + k * e + k * f),
{
    assert(k * (a + b + c - (d + e + f)) == k * a + k * b + k * c - (k * d + k * e + k * f))
        by (nonlinear_arith);
}

impl Plane {
    /// The half-space that holds no point.
    pub open spec fn spec_nowhere() -> Plane {
        Plane { normal: IVec3::from_ints(0, 0, 0), distance: (-1) as i64 }
    }

    /// The half-space that holds no point and rejects every volume.
    #[verifier::when_used_as_spec(spec_nowhere)]
    pub fn nowhere() -> (plane: Plane)
        ensures
            plane == Plane::spec_nowhere(),
    {
        Plane { normal: IVec3 { x: 0, y: 0, z: 0 }, distance: -1 }
    }

    /// The half-space of the points that lie at most `limit` from `origin`
    /// in the direction of `axis`.
    pub open spec fn spec_bounded_along(axis: IVec3, origin: IVec3, limit: int) -> Plane {
        Plane { normal: axis, distance: (axis.spec_dot(&origin) + limit) as i64 }
    }

    /// The half-space of the points that lie at most `limit` from `origin`
    /// in the direction of `axis`, for an axis with small coordinates.
    pub(crate) fn bounded_along(axis: IVec3, origin: &IVec3, limit: i64) -> (plane: Plane)
        requires
            -0x2_0000 <= axis.x <= 0x2_0000,
            -0x2_0000 <= axis.y <= 0x2_0000,
            -0x2_0000 <= axis.z <= 0x2_0000,
            -0x1_0000_0000 <= limit <= 0x1_0000_0000,
        ensures
            plane == Plane::spec_bounded_along(axis, *origin, limit as int),
            plane.normal == axis,
            plane.distance == axis.spec_dot(origin) + limit,
    {
        let d: i128 = axis.dot(origin);
        assert(-0x1_0000_0000_0000 <= axis.x * origin.x <= 0x1_0000_0000_0000
            && -0x1_0000_0000_0000 <= axis.y * origin.y <= 0x1_0000_0000_0000
            && -0x1_0000_0000_0000 <= axis.z * origin.z <= 0x1_0000_0000_0000)
            by (nonlinear_arith)
            requires
                -0x2_0000 <= axis.x <= 0x2_0000,
                -0x2_0000 <= axis.y <= 0x2_0000,
                -0x2_0000 <= axis.z <= 0x2_0000,
                -0x8000_0000 <= origin.x <= 0x7fff_ffff,
                -0x8000_0000 <= origin.y <= 0x7fff_ffff,
                -0x8000_0000 <= origin.z <= 0x7fff_ffff,
        ;
        Plane { normal: axis, distance: (d + limit as i128) as i64 }
    }
}

/// A region bounded by six half-spaces, whose normals face outwards. A point
/// is inside when it is on the inner side of all six.
#[derive(Clone, Copy, Debug, PartialEq, Eq)]
pub struct Frustum {
    pub planes: [Plane; 6],
}

impl Frustum {
    /// Whether `p` is inside: on the inner side of all six planes.
    pub open spec fn spec_contains(&self, p: &IVec3) -> bool {
        forall|k: int| 0 <= k < 6 ==> (#[trigger] self.planes[k]).contains(p)
    }

    /// Whether `p` is inside.
    #[verifier::when_used_as_spec(spec_contains)]
    pub fn contains(&self, p: &IVec3) -> (inside: bool)
        ensures
            inside == self.spec_contains(p),
    {
        let mut k: usize = 0;
        while k < 6
            invariant
                k <= 6,
                forall|j: int| 0 <= j < k ==> (#[trigger] self.planes[j]).contains(p),
            decreases 6 - k,
        {
            if !self.planes[k].contains(p) {
                return false;
            }
            k = k + 1;
        }
        true
    }

    /// Whether `volume` may reach into the frustum: no single plane has the
    /// whole volume strictly outside.
    pub open spec fn spec_intersects(&self, volume: &BoundingVolume) -> bool {
        forall|k: int| 0 <= k < 6 ==> !(#[trigger] self.planes[k]).rejects(volume)
    }

    /// Whether `volume` may reach into the frustum. The test is made plane
    /// by plane, so a volume near a corner may pass it without touching the
    /// frustum; a volume that shares a point with the frustum always passes.
    #[verifier::when_used_as_spec(spec_intersects)]
    pub fn intersects(&self, volume: &BoundingVolume) -> (hit: bool)
        ensures
            hit == self.spec_intersects(volume),
    {
        let mut k: usize = 0;
        while k < 6
            invariant
                k <= 6,
                forall|j: int| 0 <= j < k ==> !(#[trigger] self.planes[j]).rejects(volume),
            decreases 6 - k,
        {
            if self.planes[k].rejects(volume) {
                return false;
            }
            k = k + 1;
        }
        true
    }

    /// The frustum that holds no point.
    pub open spec fn spec_empty() -> Frustum {
        Frustum {
            planes: [
                Plane::nowhere(),
                Plane::nowhere(),
                Plane::nowhere(),
                Plane::nowhere(),
                Plane::nowhere(),
                Plane::nowhere(),
            ],
        }
    }

    /// The frustum that holds no point and lets no volume pass.
    #[verifier::when_used_as_spec(spec_empty)]
    pub fn empty() -> (frustum: Frustum)
        ensures
            frustum == Frustum::spec_empty(),
            forall|p: IVec3| !frustum.contains(&p),
            forall|volume: BoundingVolume| !frustum.intersects(&volume),
    {
        let frustum = Frustum {
            planes: [
                Plane::nowhere(),
                Plane::nowhere(),
                Plane::nowhere(),
                Plane::nowhere(),
                Plane::nowhere(),
                Plane::nowhere(),
            ],
        };
        proof {
            Frustum::lemma_empty_rejects_everything();
        }
        frustum
    }

    /// The empty frustum holds no point and lets no volume pass.
    pub proof fn lemma_empty_rejects_everything()
        ensures
            forall|p: IVec3| !Frustum::empty().contains(&p),
            forall|volume: BoundingVolume| !Frustum::empty().intersects(&volume),
    {
        let e = Frustum::empty();
        assert(e.planes[0] == Plane::nowhere());
        assert forall|p: IVec3| !e.contains(&p) by {
            lemma_dot_with_unit(Plane::nowhere().normal, p);
            assert(!e.planes[0].contains(&p));
        }
        assert forall|volume: BoundingVolume| !e.intersects(&volume) by {
            let plane = e.planes[0];
            let n = plane.normal;
            assert(plane.rejects(&volume)) by {
                match volume {
                    BoundingVolume::Sphere(s) => {
                        lemma_dot_with_unit(n, s.center);
                        lemma_dot_with_unit(n, n);
                        let o = plane.offset(s.center);
                        assert(o == 1);
                        assert(o * o == 1) by (nonlinear_arith)
                            requires
                                o == 1,
                        ;
                        assert((s.radius * s.radius) * n.spec_length_squared() == 0)
                            by (nonlinear_arith)
                            requires
                                n.spec_length_squared() == 0,
                        ;
                    },
                    BoundingVolume::Aabb(b) => {
                        assert(n.x == 0 && n.y == 0 && n.z == 0);
                        assert(plane.least_offset(&b) == 1) by (nonlinear_arith)
                            requires
                                n.x == 0 && n.y == 0 && n.z == 0,
                                plane.distance == -1,
                                plane.least_offset(&b) == least_product(
                                    n.x as int,
                                    b.min.x as int,
                                    b.max.x as int,
                                ) + least_product(n.y as int, b.min.y as int, b.max.y as int)
                                    + least_product(n.z as int, b.min.z as int, b.max.z as int)
                                    - plane.distance,
                        ;
                    },
                }
            }
        }
    }

    /// The frustum of a cube map's face: the region that a viewer at
    /// `origin` sees who looks along `face` with a field of view of 90
    /// degrees in both directions, as far as `far`. Its planes are, in
    /// order, the right, left, top and bottom sides, which all pass through
    /// `origin`, the plane through `origin` across the line of sight, and
    /// the plane at `far`. With `far` zero or negative the frustum is empty.
    #[verifier::opaque]
    pub open spec fn spec_cube_face(origin: &IVec3, face: CubeFace, far: i32) -> Frustum {
        if far <= 0 {
            Frustum::empty()
        } else {
            let r = face.right();
            let u = face.up();
            let back = face.forward().negated();
            Frustum {
                planes: [
                    Plane::spec_bounded_along(r.plus(&back), *origin, 0),
                    Plane::spec_bounded_along(r.negated().plus(&back), *origin, 0),
                    Plane::spec_bounded_along(u.plus(&back), *origin, 0),
                    Plane::spec_bounded_along(u.negated().plus(&back), *origin, 0),
                    Plane::spec_bounded_along(back, *origin, 0),
                    Plane::spec_bounded_along(face.forward(), *origin, far as int),
                ],
            }
        }
    }

    /// The frustum of a cube map's face, for a viewer at `origin` who sees
    /// as far as `far`.
    #[verifier::when_used_as_spec(spec_cube_face)]
    pub fn cube_face(origin: &IVec3, face: CubeFace, far: i32) -> (frustum: Frustum)
        ensures
            frustum == Frustum::spec_cube_face(origin, face, far),
            far <= 0 ==> frustum == Frustum::empty(),
            forall|p: IVec3| #[trigger] frustum.contains(&p) <==> in_cube_face(*origin, face, far, p),
    {
        proof {
            assert forall|p: IVec3| #[trigger]
                Frustum::spec_cube_face(origin, face, far).contains(&p) <==> in_cube_face(
                    *origin,
                    face,
                    far,
                    p,
                ) by {
                Frustum::lemma_cube_face_contains(*origin, face, far, p);
            }
        }
        reveal(Frustum::spec_cube_face);
        if far <= 0 {
            return Frustum::empty();
        }
        let r = face.right();
        let u = face.up();
        let f = face.forward();
        let back = f.negated();
        Frustum {
            planes: [
                Plane::bounded_along(r.plus(&back), origin, 0),
                Plane::bounded_along(r.negated().plus(&back), origin, 0),
                Plane::bounded_along(u.plus(&back), origin, 0),
                Plane::bounded_along(u.negated().plus(&back), origin, 0),
                Plane::bounded_along(back, origin, 0),
                Plane::bounded_along(f, origin, far as i64),
            ],
        }
    }

    /// The frustum of a perspective projection: the pyramid `projection`,
    /// laid out in the frame of a viewer at `origin` who looks along `face`.
    /// Its planes are, in order, the right, left, top and bottom sides, which
    /// all pass through `origin`, and the planes at `near` and at `far`. With
    /// a degenerate pyramid the frustum is empty.
    #[verifier::opaque]
    pub open spec fn spec_perspective(
        origin: &IVec3,
        face: CubeFace,
        projection: &PerspectiveProjection,
    ) -> Frustum {
        if projection.is_degenerate() {
            Frustum::empty()
        } else {
            let r = face.right();
            let u = face.up();
            let f = face.forward();
            let depth = projection.depth as int;
            let width = projection.half_width as int;
            let height = projection.half_height as int;
            Frustum {
                planes: [
                    Plane::spec_bounded_along(spec_side_normal(r, f, depth, width), *origin, 0),
                    Plane::spec_bounded_along(
                        spec_side_normal(r.negated(), f, depth, width),
                        *origin,
                        0,
                    ),
                    Plane::spec_bounded_along(spec_side_normal(u, f, depth, height), *origin, 0),
                    Plane::spec_bounded_along(
                        spec_side_normal(u.negated(), f, depth, height),
                        *origin,
                        0,
                    ),
                    Plane::spec_bounded_along(f.negated(), *origin, -projection.near),
                    Plane::spec_bounded_along(f, *origin, projection.far as int),
                ],
            }
        }
    }

    /// The frustum of a perspective projection, for a viewer at `origin`
    /// who looks along `face`.
    #[verifier::when_used_as_spec(spec_perspective)]
    pub fn perspective(origin: &IVec3, face: CubeFace, projection: &PerspectiveProjection) -> (frustum:
        Frustum)
        ensures
            frustum == Frustum::spec_perspective(origin, face, projection),
            projection.is_degenerate() ==> frustum == Frustum::empty(),
            forall|p: IVec3| #[trigger]
                frustum.contains(&p) <==> in_perspective(*origin, face, *projection, p),
    {
        proof {
            assert forall|p: IVec3| #[trigger]
                Frustum::spec_perspective(origin, face, projection).contains(&p) <==> in_perspective(
                    *origin,
                    face,
                    *projection,
                    p,
                ) by {
                Frustum::lemma_perspective_contains(*origin, face, *projection, p);
            }
        }
        reveal(Frustum::spec_perspective);
        if projection.is_degenerate() {
            return Frustum::empty();
        }
        let r = face.right();
        let u = face.up();
        let f = face.forward();
        let depth = projection.depth;
        Frustum {
            planes: [
                Plane::bounded_along(side_normal(r, f, depth, projection.half_width), origin, 0),
                Plane::bounded_along(
                    side_normal(r.negated(), f, depth, projection.half_width),
                    origin,
                    0,
                ),
                Plane::bounded_along(side_normal(u, f, depth, projection.half_height), origin, 0),
                Plane::bounded_along(
                    side_normal(u.negated(), f, depth, projection.half_height),
                    origin,
                    0,
                ),
                Plane::bounded_along(f.negated(), origin, -(projection.near as i64)),
                Plane::bounded_along(f, origin, projection.far as i64),
            ],
        }
    }

    /// The points of a perspective frustum are those of its pyramid.
    pub proof fn lemma_perspective_contains(
        origin: IVec3,
        face: CubeFace,
        projection: PerspectiveProjection,
        p: IVec3,
    )
        ensures
            Frustum::perspective(&origin, face, &projection).contains(&p) <==> in_perspective(
                origin,
                face,
                projection,
                p,
            ),
    {
        reveal(Frustum::spec_perspective);
        let frustum = Frustum::perspective(&origin, face, &projection);
        if projection.is_degenerate() {
            Frustum::lemma_empty_rejects_everything();
        } else {
            let r = face.right();
            let u = face.up();
            let f = face.forward();
            let depth = projection.depth as int;
            let width = projection.half_width as int;
            let height = projection.half_height as int;
            lemma_frame_offsets(face, origin, p);
            lemma_along_side_normal(r, f, depth, width, origin, p);
            lemma_along_side_normal(r.negated(), f, depth, width, origin, p);
            lemma_along_side_normal(u, f, depth, height, origin, p);
            lemma_along_side_normal(u.negated(), f, depth, height, origin, p);
            let sideways = along(r, origin, p);
            let upwards = along(u, origin, p);
            let ahead = along(f, origin, p);
            assert(depth * (-sideways) == -(depth * sideways)) by (nonlinear_arith);
            assert(depth * (-upwards) == -(depth * upwards)) by (nonlinear_arith);
            assert(width * ahead == ahead * width && height * ahead == ahead * height
                && depth * sideways == sideways * depth && depth * upwards == upwards * depth)
                by (nonlinear_arith);
            assert(frustum.planes[0].contains(&p) <==> sideways * depth <= ahead * width);
            assert(frustum.planes[1].contains(&p) <==> -(ahead * width) <= sideways * depth);
            assert(frustum.planes[2].contains(&p) <==> upwards * depth <= ahead * height);
            assert(frustum.planes[3].contains(&p) <==> -(ahead * height) <= upwards * depth);
            assert(frustum.planes[4].contains(&p) <==> projection.near <= ahead);
            assert(frustum.planes[5].contains(&p) <==> ahead <= projection.far);
        }
    }

    /// The frustum of an orthographic projection: the box `extent`, laid
    /// out in the frame of a viewer at `origin` who looks along `face`. Its
    /// planes are, in order, right, left, top, bottom, near and far. With a
    /// degenerate box the frustum is empty.
    #[verifier::opaque]
    pub open spec fn spec_orthographic(
        origin: &IVec3,
        face: CubeFace,
        extent: &OrthographicBox,
    ) -> Frustum {
        if extent.is_degenerate() {
            Frustum::empty()
        } else {
            let r = face.right();
            let u = face.up();
            let f = face.forward();
            Frustum {
                planes: [
                    Plane::spec_bounded_along(r, *origin, extent.right as int),
                    Plane::spec_bounded_along(r.negated(), *origin, -extent.left),
                    Plane::spec_bounded_along(u, *origin, extent.top as int),
                    Plane::spec_bounded_along(u.negated(), *origin, -extent.bottom),
                    Plane::spec_bounded_along(f.negated(), *origin, -extent.near),
                    Plane::spec_bounded_along(f, *origin, extent.far as int),
                ],
            }
        }
    }

    /// The frustum of an orthographic projection, for a viewer at `origin`
    /// who looks along `face`.
    #[verifier::when_used_as_spec(spec_orthographic)]
    pub fn orthographic(origin: &IVec3, face: CubeFace, extent: &OrthographicBox) -> (frustum:
        Frustum)
        ensures
            frustum == Frustum::spec_orthographic(origin, face, extent),
            extent.is_degenerate() ==> frustum == Frustum::empty(),
            forall|p: IVec3| #[trigger]
                frustum.contains(&p) <==> in_orthographic(*origin, face, *extent, p),
    {
        proof {
            assert forall|p: IVec3| #[trigger]
                Frustum::spec_orthographic(origin, face, extent).contains(&p) <==> in_orthographic(
                    *origin,
                    face,
                    *extent,
                    p,
                ) by {
                Frustum::lemma_orthographic_contains(*origin, face, *extent, p);
            }
        }
        reveal(Frustum::spec_orthographic);
        if extent.is_degenerate() {
            return Frustum::empty();
        }
        let r = face.right();
        let u = face.up();
        let f = face.forward();
        Frustum {
            planes: [
                Plane::bounded_along(r, origin, extent.right as i64),
                Plane::bounded_along(r.negated(), origin, -(extent.left as i64)),
                Plane::bounded_along(u, origin, extent.top as i64),
                Plane::bounded_along(u.negated(), origin, -(extent.bottom as i64)),
                Plane::bounded_along(f.negated(), origin, -(extent.near as i64)),
                Plane::bounded_along(f, origin, extent.far as i64),
            ],
        }
    }

    /// The points of a face's frustum are those of the face's region.
    pub proof fn lemma_cube_face_contains(origin: IVec3, face: CubeFace, far: i32, p: IVec3)
        ensures
            Frustum::cube_face(&origin, face, far).contains(&p) <==> in_cube_face(
                origin,
                face,
                far,
                p,
            ),
    {
        reveal(Frustum::spec_cube_face);
        let frustum = Frustum::cube_face(&origin, face, far);
        if far <= 0 {
            Frustum::lemma_empty_rejects_everything();
        } else {
            lemma_frame_offsets(face, origin, p);
            assert(frustum.planes[0].contains(&p) && frustum.planes[1].contains(&p)
                && frustum.planes[2].contains(&p) && frustum.planes[3].contains(&p)
                && frustum.planes[4].contains(&p) && frustum.planes[5].contains(&p)
                <==> in_cube_face(origin, face, far, p));
        }
    }

    /// The frustum of a face has its apex at the origin: the four sides and
    /// the plane across the line of sight all pass through it, and the last
    /// plane lies `far` ahead of it.
    pub proof fn lemma_cube_face_apex(origin: IVec3, face: CubeFace, far: i32)
        requires
            far > 0,
        ensures
            forall|k: int|
                0 <= k < 5 ==> (#[trigger] Frustum::cube_face(&origin, face, far).planes[k]).offset(
                    origin,
                ) == 0,
            Frustum::cube_face(&origin, face, far).planes[5].offset(origin) == -far,
    {
        reveal(Frustum::spec_cube_face);
        lemma_frame_offsets(face, origin, origin);
    }

    /// The points of an orthographic frustum are those of its box.
    pub proof fn lemma_orthographic_contains(
        origin: IVec3,
        face: CubeFace,
        extent: OrthographicBox,
        p: IVec3,
    )
        ensures
            Frustum::orthographic(&origin, face, &extent).contains(&p) <==> in_orthographic(
                origin,
                face,
                extent,
                p,
            ),
    {
        reveal(Frustum::spec_orthographic);
        let frustum = Frustum::orthographic(&origin, face, &extent);
        if extent.is_degenerate() {
            Frustum::lemma_empty_rejects_everything();
        } else {
            lemma_frame_offsets(face, origin, p);
            assert(frustum.planes[0].contains(&p) && frustum.planes[1].contains(&p)
                && frustum.planes[2].contains(&p) && frustum.planes[3].contains(&p)
                && frustum.planes[4].contains(&p) && frustum.planes[5].contains(&p)
                <==> in_orthographic(origin, face, extent, p));
        }
    }

    /// The test has no false negative: a volume that shares a point with
    /// the frustum passes it.
    pub proof fn lemma_shared_point_intersects(&self, volume: &BoundingVolume, p: IVec3)
        requires
            volume.contains(p),
            self.contains(&p),
        ensures
            self.intersects(volume),
    {
        assert forall|k: int| 0 <= k < 6 implies !(#[trigger] self.planes[k]).rejects(volume) by {
            if self.planes[k].rejects(volume) {
                self.planes[k].lemma_rejects_is_sound(volume, p);
            }
        }
    }

    /// A volume that fails the test has no point in the frustum.
    pub proof fn lemma_rejected_volume_is_outside(&self, volume: &BoundingVolume)
        requires
            !self.intersects(volume),
        ensures
            forall|p: IVec3| volume.contains(p) ==> !self.contains(&p),
    {
        assert forall|p: IVec3| volume.contains(p) implies !self.contains(&p) by {
            if self.contains(&p) {
                self.lemma_shared_point_intersects(volume, p);
            }
        }
    }

    /// A volume that holds a point and lies wholly in the frustum passes
    /// the test.
    pub proof fn lemma_volume_inside_intersects(&self, volume: &BoundingVolume)
        requires
            volume.is_non_empty(),
            forall|p: IVec3| volume.contains(p) ==> self.contains(&p),
        ensures
            self.intersects(volume),
    {
        let p = volume.lemma_holds_a_point();
        self.lemma_shared_point_intersects(volume, p);
    }

    /// A box that holds a point and lies wholly outside one of the planes
    /// fails the test.
    pub proof fn lemma_aabb_beyond_plane_is_rejected(&self, b: &Aabb, k: int)
        requires
            b.is_non_empty(),
            0 <= k < 6,
            forall|p: IVec3| b.contains(p) ==> !self.planes[k].contains(&p),
        ensures
            !self.intersects(&BoundingVolume::Aabb(*b)),
    {
        self.planes[k].lemma_rejects_aabb_is_exact(b);
        assert(self.planes[k].rejects(&BoundingVolume::Aabb(*b)));
    }
}

/// The empty frustum.
impl Default for Frustum {
    fn default() -> (frustum: Frustum)
        ensures
            frustum == Frustum::empty(),
    {
        Frustum::empty()
    }
}

/// Distances along the combined axes of a face's frame, in terms of the
/// distances along the frame's own axes.
proof fn lemma_frame_offsets(face: CubeFace, origin: IVec3, p: IVec3)
    ensures
        ({
            let r = face.right();
            let u = face.up();
            let f = face.forward();
            let back = f.negated();
            let sideways = along(r, origin, p);
            let upwards = along(u, origin, p);
            let ahead = along(f, origin, p);
            &&& along(r.plus(&back), origin, p) == sideways - ahead
            &&& along(r.negated().plus(&back), origin, p) == -sideways - ahead
            &&& along(u.plus(&back), origin, p) == upwards - ahead
            &&& along(u.negated().plus(&back), origin, p) == -upwards - ahead
            &&& along(back, origin, p) == -ahead
            &&& along(r.negated(), origin, p) == -sideways
            &&& along(u.negated(), origin, p) == -upwards
            &&& -0x1_0000_0000 <= r.plus(&back).spec_dot(&origin) <= 0x1_0000_0000
            &&& -0x1_0000_0000 <= r.negated().plus(&back).spec_dot(&origin) <= 0x1_0000_0000
            &&& -0x1_0000_0000 <= u.plus(&back).spec_dot(&origin) <= 0x1_0000_0000
            &&& -0x1_0000_0000 <= u.negated().plus(&back).spec_dot(&origin) <= 0x1_0000_0000
            &&& -0x8000_0000 <= r.spec_dot(&origin) <= 0x8000_0000
            &&& -0x8000_0000 <= u.spec_dot(&origin) <= 0x8000_0000
            &&& -0x8000_0000 <= f.spec_dot(&origin) <= 0x8000_0000
            &&& -0x8000_0000 <= r.negated().spec_dot(&origin) <= 0x8000_0000
            &&& -0x8000_0000 <= u.negated().spec_dot(&origin) <= 0x8000_0000
            &&& -0x8000_0000 <= back.spec_dot(&origin) <= 0x8000_0000
        }),
{
    let r = face.right();
    let u = face.up();
    let f = face.forward();
    let back = f.negated();
    match face {
        CubeFace::PosX => {},
        CubeFace::NegX => {},
        CubeFace::PosY => {},
        CubeFace::NegY => {},
        CubeFace::PosZ => {},
        CubeFace::NegZ => {},
    }
    lemma_dot_with_unit(r, p);
    lemma_dot_with_unit(r, origin);
    lemma_dot_with_unit(u, p);
    lemma_dot_with_unit(u, origin);
    lemma_dot_with_unit(f, p);
    lemma_dot_with_unit(f, origin);
    lemma_dot_with_unit(back, p);
    lemma_dot_with_unit(back, origin);
    lemma_dot_with_unit(r.negated(), p);
    lemma_dot_with_unit(r.negated(), origin);
    lemma_dot_with_unit(u.negated(), p);
    lemma_dot_with_unit(u.negated(), origin);
    lemma_dot_with_unit(r.plus(&back), p);
    lemma_dot_with_unit(r.plus(&back), origin);
    lemma_dot_with_unit(r.negated().plus(&back), p);
    lemma_dot_with_unit(r.negated().plus(&back), origin);
    lemma_dot_with_unit(u.plus(&back), p);
    lemma_dot_with_unit(u.plus(&back), origin);
    lemma_dot_with_unit(u.negated().plus(&back), p);
    lemma_dot_with_unit(u.negated().plus(&back), origin);
}

} // verus!
