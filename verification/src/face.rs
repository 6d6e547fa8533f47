//! The six faces of a cube map, and the view frame of each.

use crate::geometry::IVec3;
use vstd::prelude::*;

verus! {

/// Number of faces of a cube map.
pub const FACE_COUNT: usize = 6;

/// A face of a cube map, named by the axis direction it looks along. The
/// faces are numbered in the order in which they are listed here.
#[derive(Clone, Copy, Debug, PartialEq, Eq, Structural)]
pub enum CubeFace {
    PosX,
    NegX,
    PosY,
    NegY,
    PosZ,
    NegZ,
}

/// `t`, its opposite or zero, as `sign` is 1, -1 or anything else.
pub open spec fn signed(sign: int, t: int) -> int {
    if sign == 1 {
        t
    } else if sign == -1 {
        -t
    } else {
        0
    }
}

/// The dot product with a vector whose coordinates are 1, 0 or -1 picks
/// coordinates of the other vector, with a sign.
pub proof fn lemma_dot_with_unit(unit: IVec3, v: IVec3)
    requires
        -1 <= unit.x <= 1,
        -1 <= unit.y <= 1,
        -1 <= unit.z <= 1,
    ensures
        unit.spec_dot(&v) == signed(unit.x as int, v.x as int) + signed(unit.y as int, v.y as int)
            + signed(unit.z as int, v.z as int),
{
    assert(unit.x * v.x == signed(unit.x as int, v.x as int)) by (nonlinear_arith)
        requires
            -1 <= unit.x <= 1,
    ;
    assert(unit.y * v.y == signed(unit.y as int, v.y as int)) by (nonlinear_arith)
        requires
            -1 <= unit.y <= 1,
    ;
    assert(unit.z * v.z == signed(unit.z as int, v.z as int)) by (nonlinear_arith)
        requires
            -1 <= unit.z <= 1,
    ;
}

impl CubeFace {
    /// The number of the face, from 0 to 5.
    pub open spec fn spec_index(self) -> usize {
        match self {
            CubeFace::PosX => 0,
            CubeFace::NegX => 1,
            CubeFace::PosY => 2,
            CubeFace::NegY => 3,
            CubeFace::PosZ => 4,
            CubeFace::NegZ => 5,
        }
    }

    /// The number of the face, from 0 to 5.
    #[verifier::when_used_as_spec(spec_index)]
    pub fn index(self) -> (i: usize)
        ensures
            i == self.spec_index(),
            i < FACE_COUNT,
    {
        match self {
            CubeFace::PosX => 0,
            CubeFace::NegX => 1,
            CubeFace::PosY => 2,
            CubeFace::NegY => 3,
            CubeFace::PosZ => 4,
            CubeFace::NegZ => 5,
        }
    }

    /// The face with the given number, if there is one.
    pub open spec fn spec_from_index(i: usize) -> Option<CubeFace> {
        if i == 0 {
            Some(CubeFace::PosX)
        } else if i == 1 {
            Some(CubeFace::NegX)
        } else if i == 2 {
            Some(CubeFace::PosY)
        } else if i == 3 {
            Some(CubeFace::NegY)
        } else if i == 4 {
            Some(CubeFace::PosZ)
        } else if i == 5 {
            Some(CubeFace::NegZ)
        } else {
            None
        }
    }

    /// The face with the given number: some face exactly for 0 to 5, and
    /// then the one whose `index` is `i`.
    #[verifier::when_used_as_spec(spec_from_index)]
    pub fn from_index(i: usize) -> (face: Option<CubeFace>)
        ensures
            face == CubeFace::spec_from_index(i),
            face is Some <==> i < FACE_COUNT,
            face matches Some(f) ==> f.spec_index() == i,
    {
        match i {
            0 => Some(CubeFace::PosX),
            1 => Some(CubeFace::NegX),
            2 => Some(CubeFace::PosY),
            3 => Some(CubeFace::NegY),
            4 => Some(CubeFace::PosZ),
            5 => Some(CubeFace::NegZ),
            _ => None,
        }
    }

    /// The face with the number `i`; for a number that no face has, the
    /// last face.
    pub open spec fn nth(i: int) -> CubeFace {
        if i == 0 {
            CubeFace::PosX
        } else if i == 1 {
            CubeFace::NegX
        } else if i == 2 {
            CubeFace::PosY
        } else if i == 3 {
            CubeFace::NegY
        } else if i == 4 {
            CubeFace::PosZ
        } else {
            CubeFace::NegZ
        }
    }

    /// The face that looks the other way.
    pub open spec fn opposite(self) -> CubeFace {
        match self {
            CubeFace::PosX => CubeFace::NegX,
            CubeFace::NegX => CubeFace::PosX,
            CubeFace::PosY => CubeFace::NegY,
            CubeFace::NegY => CubeFace::PosY,
            CubeFace::PosZ => CubeFace::NegZ,
            CubeFace::NegZ => CubeFace::PosZ,
        }
    }

    /// The unit vector along which the face looks.
    pub open spec fn spec_forward(self) -> IVec3 {
        match self {
            CubeFace::PosX => IVec3::from_ints(1, 0, 0),
            CubeFace::NegX => IVec3::from_ints(-1, 0, 0),
            CubeFace::PosY => IVec3::from_ints(0, 1, 0),
            CubeFace::NegY => IVec3::from_ints(0, -1, 0),
            CubeFace::PosZ => IVec3::from_ints(0, 0, 1),
            CubeFace::NegZ => IVec3::from_ints(0, 0, -1),
        }
    }

    /// The unit vector along which the face looks.
    #[verifier::when_used_as_spec(spec_forward)]
    pub fn forward(self) -> (v: IVec3)
        ensures
            v == self.spec_forward(),
    {
        match self {
            CubeFace::PosX => IVec3 { x: 1, y: 0, z: 0 },
            CubeFace::NegX => IVec3 { x: -1, y: 0, z: 0 },
            CubeFace::PosY => IVec3 { x: 0, y: 1, z: 0 },
            CubeFace::NegY => IVec3 { x: 0, y: -1, z: 0 },
            CubeFace::PosZ => IVec3 { x: 0, y: 0, z: 1 },
            CubeFace::NegZ => IVec3 { x: 0, y: 0, z: -1 },
        }
    }

    /// The unit vector that points to the right of a viewer who looks along
    /// the face with `up` above.
    pub open spec fn spec_right(self) -> IVec3 {
        match self {
            CubeFace::PosX => IVec3::from_ints(0, 0, 1),
            CubeFace::NegX => IVec3::from_ints(0, 0, -1),
            CubeFace::PosY => IVec3::from_ints(1, 0, 0),
            CubeFace::NegY => IVec3::from_ints(1, 0, 0),
            CubeFace::PosZ => IVec3::from_ints(-1, 0, 0),
            CubeFace::NegZ => IVec3::from_ints(1, 0, 0),
        }
    }

    /// The unit vector that points to the viewer's right.
    #[verifier::when_used_as_spec(spec_right)]
    pub fn right(self) -> (v: IVec3)
        ensures
            v == self.spec_right(),
    {
        match self {
            CubeFace::PosX => IVec3 { x: 0, y: 0, z: 1 },
            CubeFace::NegX => IVec3 { x: 0, y: 0, z: -1 },
            CubeFace::PosY => IVec3 { x: 1, y: 0, z: 0 },
            CubeFace::NegY => IVec3 { x: 1, y: 0, z: 0 },
            CubeFace::PosZ => IVec3 { x: -1, y: 0, z: 0 },
            CubeFace::NegZ => IVec3 { x: 1, y: 0, z: 0 },
        }
    }

    /// The unit vector that points upwards for the viewer: the world's +Y
    /// for the four side faces, +Z when looking up and -Z when looking down.
    pub open spec fn spec_up(self) -> IVec3 {
        match self {
            CubeFace::PosX => IVec3::from_ints(0, 1, 0),
            CubeFace::NegX => IVec3::from_ints(0, 1, 0),
            CubeFace::PosY => IVec3::from_ints(0, 0, 1),
            CubeFace::NegY => IVec3::from_ints(0, 0, -1),
            CubeFace::PosZ => IVec3::from_ints(0, 1, 0),
            CubeFace::NegZ => IVec3::from_ints(0, 1, 0),
        }
    }

    /// The unit vector that points upwards for the viewer.
    #[verifier::when_used_as_spec(spec_up)]
    pub fn up(self) -> (v: IVec3)
        ensures
            v == self.spec_up(),
    {
        match self {
            CubeFace::PosX => IVec3 { x: 0, y: 1, z: 0 },
            CubeFace::NegX => IVec3 { x: 0, y: 1, z: 0 },
            CubeFace::PosY => IVec3 { x: 0, y: 0, z: 1 },
            CubeFace::NegY => IVec3 { x: 0, y: 0, z: -1 },
            CubeFace::PosZ => IVec3 { x: 0, y: 1, z: 0 },
            CubeFace::NegZ => IVec3 { x: 0, y: 1, z: 0 },
        }
    }
}

} // verus!
