//! Projections: the regions that a viewer sees, described in the viewer's
//! own frame.

use crate::face::CubeFace;
use crate::geometry::IVec3;
use vstd::prelude::*;

verus! {

/// How far `to` lies from `from` in the direction of `axis`, in units of the
/// axis' length.
pub open spec fn along(axis: IVec3, from: IVec3, to: IVec3) -> int {
    axis.spec_dot(&to) - axis.spec_dot(&from)
}

/// The extent of an orthographic projection in the viewer's frame: the
/// region from `left` to `right` along the viewer's right, from `bottom` to
/// `top` along the viewer's up, and from `near` to `far` along the line of
/// sight, all measured from the viewer's position, bounds included.
#[derive(Clone, Copy, Debug, PartialEq, Eq, Structural)]
pub struct OrthographicBox {
    pub left: i32,
    pub right: i32,
    pub bottom: i32,
    pub top: i32,
    pub near: i32,
    pub far: i32,
}

impl OrthographicBox {
    /// Whether the box has no extent in some direction: a bound that does
    /// not lie strictly beyond the opposite one.
    pub open spec fn spec_is_degenerate(&self) -> bool {
        self.left >= self.right || self.bottom >= self.top || self.near >= self.far
    }

    /// Whether the box has no extent in some direction.
    #[verifier::when_used_as_spec(spec_is_degenerate)]
    pub fn is_degenerate(&self) -> (degenerate: bool)
        ensures
            degenerate == self.spec_is_degenerate(),
    {
        self.left >= self.right || self.bottom >= self.top || self.near >= self.far
    }
}

/// The shape of a perspective projection in the viewer's frame: a pyramid
/// with its apex at the viewer, which at `depth` ahead reaches `half_width`
/// to either side and `half_height` up and down, cut off at `near` and
/// `far` ahead. The ratios of `half_width` and `half_height` to `depth` are
/// the tangents of half the horizontal and the vertical field of view.
#[derive(Clone, Copy, Debug, PartialEq, Eq, Structural)]
pub struct PerspectiveProjection {
    pub half_width: u16,
    pub half_height: u16,
    pub depth: u16,
    pub near: i32,
    pub far: i32,
}

impl PerspectiveProjection {
    /// Whether the pyramid has no extent in some direction: a field of view
    /// of zero or of 180 degrees, or a far bound that is not ahead of the
    /// viewer and beyond the near bound.
    pub open spec fn spec_is_degenerate(&self) -> bool {
        self.half_width == 0 || self.half_height == 0 || self.depth == 0 || self.far <= 0
            || self.near >= self.far
    }

    /// Whether the pyramid has no extent in some direction.
    #[verifier::when_used_as_spec(spec_is_degenerate)]
    pub fn is_degenerate(&self) -> (degenerate: bool)
        ensures
            degenerate == self.spec_is_degenerate(),
    {
        self.half_width == 0 || self.half_height == 0 || self.depth == 0 || self.far <= 0
            || self.near >= self.far
    }
}

/// Whether `p` lies in the region that a viewer at `origin` sees who looks
/// along `face` with a field of view of 90 degrees, as far as `far`: `p` is
/// no farther to either side, and no farther up or down, than it is ahead,
/// and at most `far` ahead.
pub open spec fn in_cube_face(origin: IVec3, face: CubeFace, far: i32, p: IVec3) -> bool {
    let sideways = along(face.right(), origin, p);
    let upwards = along(face.up(), origin, p);
    let ahead = along(face.forward(), origin, p);
    &&& far > 0
    &&& -ahead <= sideways <= ahead
    &&& -ahead <= upwards <= ahead
    &&& ahead <= far
}

/// Whether `p` lies in the pyramid `projection`, laid out in the frame of a
/// viewer at `origin` who looks along `face`: for each `depth` that `p` is
/// ahead, it is at most `half_width` to either side and `half_height` up or
/// down, and it is between `near` and `far` ahead.
pub open spec fn in_perspective(
    origin: IVec3,
    face: CubeFace,
    projection: PerspectiveProjection,
    p: IVec3,
) -> bool {
    let sideways = along(face.right(), origin, p);
    let upwards = along(face.up(), origin, p);
    let ahead = along(face.forward(), origin, p);
    &&& !projection.is_degenerate()
    &&& -(ahead * projection.half_width) <= sideways * projection.depth <= ahead
        * projection.half_width
    &&& -(ahead * projection.half_height) <= upwards * projection.depth <= ahead
        * projection.half_height
    &&& projection.near <= ahead <= projection.far
}

/// Whether `p` lies in the box `extent`, laid out in the frame of a viewer
/// at `origin` who looks along `face`.
pub open spec fn in_orthographic(
    origin: IVec3,
    face: CubeFace,
    extent: OrthographicBox,
    p: IVec3,
) -> bool {
    let sideways = along(face.right(), origin, p);
    let upwards = along(face.up(), origin, p);
    let ahead = along(face.forward(), origin, p);
    &&& !extent.is_degenerate()
    &&& extent.left <= sideways <= extent.right
    &&& extent.bottom <= upwards <= extent.top
    &&& extent.near <= ahead <= extent.far
}

} // verus!
