//! The six frusta of a point light: one per face of a cube map, all seen
//! from the light's position.

use crate::face::{lemma_dot_with_unit, CubeFace, FACE_COUNT};
use crate::frustum::Frustum;
use crate::geometry::IVec3;
use crate::projection::{along, in_cube_face};
use vstd::prelude::*;
use vstd::std_specs::iter::IteratorSpec;

verus! {

/// Six frusta, one per face of a cube map in the order of the faces'
/// numbers. All six are seen from the same origin and reach equally far;
/// they differ only in the direction they look along.
#[derive(Clone, Copy, Debug, PartialEq, Eq)]
pub struct CubemapFrusta {
    frusta: [Frustum; 6],
}

impl View for CubemapFrusta {
    type V = Seq<Frustum>;

    closed spec fn view(&self) -> Seq<Frustum> {
        self.frusta@
    }
}

impl CubemapFrusta {
    /// The six frusta of a viewer at `origin` who sees as far as `far`.
    pub open spec fn faces_at(origin: IVec3, far: i32) -> Seq<Frustum> {
        Seq::new(6, |i: int| Frustum::cube_face(&origin, CubeFace::nth(i), far))
    }

    /// Whether the six frusta are those of one viewer: they share an origin
    /// and a range.
    pub open spec fn is_of_one_viewer(&self) -> bool {
        exists|origin: IVec3, far: i32| self@ == CubemapFrusta::faces_at(origin, far)
    }

    /// Every value of the type holds the frusta of one viewer.
    #[verifier::type_invariant]
    closed spec fn holds_one_viewer(&self) -> bool {
        self.is_of_one_viewer()
    }

    /// The frusta of a light at `origin` whose range is `far`. With a range
    /// of zero or less all six are empty.
    pub fn new(origin: &IVec3, far: i32) -> (cubemap: CubemapFrusta)
        ensures
            cubemap@ == CubemapFrusta::faces_at(*origin, far),
    {
        let frusta = [
            Frustum::cube_face(origin, CubeFace::PosX, far),
            Frustum::cube_face(origin, CubeFace::NegX, far),
            Frustum::cube_face(origin, CubeFace::PosY, far),
            Frustum::cube_face(origin, CubeFace::NegY, far),
            Frustum::cube_face(origin, CubeFace::PosZ, far),
            Frustum::cube_face(origin, CubeFace::NegZ, far),
        ];
        assert(frusta@ =~= CubemapFrusta::faces_at(*origin, far));
        CubemapFrusta { frusta }
    }

    /// Replaces the six frusta by those of a light at `origin` whose range
    /// is `far`.
    pub fn update(&mut self, origin: &IVec3, far: i32)
        ensures
            final(self)@ == CubemapFrusta::faces_at(*origin, far),
    {
        *self = CubemapFrusta::new(origin, far);
    }

    /// The frustum of the face with number `i`.
    pub fn get(&self, i: usize) -> (frustum: &Frustum)
        requires
            i < FACE_COUNT,
        ensures
            *frustum == self@[i as int],
            self.is_of_one_viewer(),
    {
        proof {
            use_type_invariant(self);
        }
        &self.frusta[i]
    }

    /// The iterator that `iter` returns.
    pub closed spec fn spec_iter(&self) -> core::slice::Iter<'_, Frustum> {
        vstd::array::spec_array_iter(&self.frusta)
    }

    /// Iterates over the six frusta in the order of the faces' numbers; from
    /// the back, in the reverse order.
    #[verifier::when_used_as_spec(spec_iter)]
    pub fn iter(&self) -> (frusta: core::slice::Iter<'_, Frustum>)
        ensures
            frusta == self.spec_iter(),
            IteratorSpec::remaining(&frusta) == self@.as_ref(),
            IteratorSpec::decrease(&frusta) is Some,
            IteratorSpec::initial_value_relation(&frusta, &frusta),
            self.is_of_one_viewer(),
    {
        proof {
            use_type_invariant(self);
        }
        (&self.frusta).into_iter()
    }

    /// There are always six frusta.
    pub proof fn lemma_six_frusta(&self)
        ensures
            self@.len() == 6,
    {
    }
}

/// The six frusta of a viewer at the world's origin with no range: six
/// empty frusta.
impl Default for CubemapFrusta {
    fn default() -> (cubemap: CubemapFrusta)
        ensures
            cubemap@ == CubemapFrusta::faces_at(IVec3 { x: 0, y: 0, z: 0 }, 0),
    {
        CubemapFrusta::new(&IVec3 { x: 0, y: 0, z: 0 }, 0)
    }
}

/// The distances from `origin` to `p` along the three axes of a face's
/// frame, in terms of the coordinates.
pub proof fn lemma_face_coordinates(face: CubeFace, origin: IVec3, p: IVec3)
    ensures
        along(face.forward(), origin, p) == match face {
            CubeFace::PosX => p.x - origin.x,
            CubeFace::NegX => origin.x - p.x,
            CubeFace::PosY => p.y - origin.y,
            CubeFace::NegY => origin.y - p.y,
            CubeFace::PosZ => p.z - origin.z,
            CubeFace::NegZ => origin.z - p.z,
        },
        along(face.right(), origin, p) == match face {
            CubeFace::PosX => p.z - origin.z,
            CubeFace::NegX => origin.z - p.z,
            CubeFace::PosY => p.x - origin.x,
            CubeFace::NegY => p.x - origin.x,
            CubeFace::PosZ => origin.x - p.x,
            CubeFace::NegZ => p.x - origin.x,
        },
        along(face.up(), origin, p) == match face {
            CubeFace::PosX => p.y - origin.y,
            CubeFace::NegX => p.y - origin.y,
            CubeFace::PosY => p.z - origin.z,
            CubeFace::NegY => origin.z - p.z,
            CubeFace::PosZ => p.y - origin.y,
            CubeFace::NegZ => p.y - origin.y,
        },
{
    lemma_dot_with_unit(face.forward(), p);
    lemma_dot_with_unit(face.forward(), origin);
    lemma_dot_with_unit(face.right(), p);
    lemma_dot_with_unit(face.right(), origin);
    lemma_dot_with_unit(face.up(), p);
    lemma_dot_with_unit(face.up(), origin);
}

/// The six faces leave no gap: within the range, in the greatest distance
/// along an axis, every point is in the frustum of some face, and no point
/// farther away is in any.
pub proof fn lemma_faces_leave_no_gap(origin: IVec3, far: i32, p: IVec3)
    requires
        far != 0,
    ensures
        (exists|face: CubeFace| Frustum::cube_face(&origin, face, far).contains(&p))
            <==> p.chebyshev_distance(&origin) <= far,
{
    assert forall|face: CubeFace|
        Frustum::cube_face(&origin, face, far).contains(&p) == in_cube_face(
            origin,
            face,
            far,
            p,
        ) by {
        Frustum::lemma_cube_face_contains(origin, face, far, p);
    }
    lemma_face_coordinates(CubeFace::PosX, origin, p);
    lemma_face_coordinates(CubeFace::NegX, origin, p);
    lemma_face_coordinates(CubeFace::PosY, origin, p);
    lemma_face_coordinates(CubeFace::NegY, origin, p);
    lemma_face_coordinates(CubeFace::PosZ, origin, p);
    lemma_face_coordinates(CubeFace::NegZ, origin, p);
    if p.chebyshev_distance(&origin) <= far {
        let (dx, dy, dz) = (p.x - origin.x, p.y - origin.y, p.z - origin.z);
        let (ax, ay, az) = (
            if dx >= 0 {
                dx
            } else {
                -dx
            },
            if dy >= 0 {
                dy
            } else {
                -dy
            },
            if dz >= 0 {
                dz
            } else {
                -dz
            },
        );
        let face = if ax >= ay && ax >= az {
            if dx >= 0 {
                CubeFace::PosX
            } else {
                CubeFace::NegX
            }
        } else if ay >= az {
            if dy >= 0 {
                CubeFace::PosY
            } else {
                CubeFace::NegY
            }
        } else {
            if dz >= 0 {
                CubeFace::PosZ
            } else {
                CubeFace::NegZ
            }
        };
        assert(in_cube_face(origin, face, far, p));
        assert(Frustum::cube_face(&origin, face, far).contains(&p));
    }
    if exists|face: CubeFace| Frustum::cube_face(&origin, face, far).contains(&p) {
        let face = choose|face: CubeFace| Frustum::cube_face(&origin, face, far).contains(&p);
        assert(in_cube_face(origin, face, far, p));
    }
}

/// Two faces overlap only on their sides: a point in the frusta of two
/// different faces lies on a side plane of each.
pub proof fn lemma_faces_overlap_on_sides_only(
    origin: IVec3,
    far: i32,
    first: CubeFace,
    second: CubeFace,
    p: IVec3,
)
    requires
        first != second,
        Frustum::cube_face(&origin, first, far).contains(&p),
        Frustum::cube_face(&origin, second, far).contains(&p),
    ensures
        on_side_of(origin, first, p),
        on_side_of(origin, second, p),
{
    Frustum::lemma_cube_face_contains(origin, first, far, p);
    Frustum::lemma_cube_face_contains(origin, second, far, p);
    lemma_regions_overlap_on_sides_only(origin, far, first, second, p);
}

/// The arithmetic of `lemma_faces_overlap_on_sides_only`.
proof fn lemma_regions_overlap_on_sides_only(
    origin: IVec3,
    far: i32,
    first: CubeFace,
    second: CubeFace,
    p: IVec3,
)
    requires
        first != second,
        in_cube_face(origin, first, far, p),
        in_cube_face(origin, second, far, p),
    ensures
        on_side_of(origin, first, p),
        on_side_of(origin, second, p),
{
    lemma_face_coordinates(first, origin, p);
    lemma_face_coordinates(second, origin, p);
}

/// Whether `p` lies on one of the four side planes of the frustum of `face`
/// seen from `origin`: it is as far to one side, or up or down, as it is
/// ahead.
pub open spec fn on_side_of(origin: IVec3, face: CubeFace, p: IVec3) -> bool {
    let sideways = along(face.right(), origin, p);
    let upwards = along(face.up(), origin, p);
    let ahead = along(face.forward(), origin, p);
    sideways == ahead || -sideways == ahead || upwards == ahead || -upwards == ahead
}

/// The six faces share their origin: it lies in the frustum of every face,
/// where it is the apex through which the four sides pass, and it is the
/// only point that the frusta of two opposite faces have in common.
pub proof fn lemma_faces_share_origin(origin: IVec3, far: i32, face: CubeFace, p: IVec3)
    requires
        far > 0,
    ensures
        Frustum::cube_face(&origin, face, far).contains(&origin),
        forall|k: int|
            0 <= k < 5 ==> (#[trigger] Frustum::cube_face(&origin, face, far).planes[k]).offset(
                origin,
            ) == 0,
        Frustum::cube_face(&origin, face, far).contains(&p) && Frustum::cube_face(
            &origin,
            face.opposite(),
            far,
        ).contains(&p) ==> p == origin,
{
    Frustum::lemma_cube_face_contains(origin, face, far, origin);
    Frustum::lemma_cube_face_contains(origin, face, far, p);
    Frustum::lemma_cube_face_contains(origin, face.opposite(), far, p);
    Frustum::lemma_cube_face_apex(origin, face, far);
    lemma_opposite_regions_meet_at_origin(origin, far, face, p);
}

/// The arithmetic of `lemma_faces_share_origin`.
proof fn lemma_opposite_regions_meet_at_origin(origin: IVec3, far: i32, face: CubeFace, p: IVec3)
    requires
        far > 0,
    ensures
        in_cube_face(origin, face, far, origin),
        in_cube_face(origin, face, far, p) && in_cube_face(origin, face.opposite(), far, p) ==> p
            == origin,
{
    lemma_face_coordinates(face, origin, p);
    lemma_face_coordinates(face.opposite(), origin, p);
}

} // verus!
