//! Exact geometry on the integer lattice: points, bounding volumes and
//! half-spaces.
//!
//! World positions are lattice points with `i32` coordinates. Every test in
//! this module is decided in integer arithmetic, so it has no rounding and
//! gives the same answer everywhere.

use vstd::prelude::*;

verus! {

/// A lattice point, or the displacement between two lattice points.
#[derive(Clone, Copy, Debug, PartialEq, Eq, Structural)]
pub struct IVec3 {
    pub x: i32,
    pub y: i32,
    pub z: i32,
}

/// The product of two coordinates, which always fits in 64 bits.
pub fn mul_wide(a: i32, b: i32) -> (product: i64)
    ensures
        product == a * b,
{
    assert(-0x4000_0000_0000_0000 <= a * b <= 0x4000_0000_0000_0000) by (nonlinear_arith)
        requires
            -0x8000_0000 <= a <= 0x7fff_ffff,
            -0x8000_0000 <= b <= 0x7fff_ffff,
    ;
    (a as i64) * (b as i64)
}

impl IVec3 {
    /// The vector with the given coordinates.
    pub fn new(x: i32, y: i32, z: i32) -> (v: IVec3)
        ensures
            v == (IVec3 { x, y, z }),
    {
        IVec3 { x, y, z }
    }

    /// The vector with the given coordinates, each of which fits in 32 bits.
    pub open spec fn from_ints(x: int, y: int, z: int) -> IVec3
        recommends
            i32::MIN <= x <= i32::MAX,
            i32::MIN <= y <= i32::MAX,
            i32::MIN <= z <= i32::MAX,
    {
        IVec3 { x: x as i32, y: y as i32, z: z as i32 }
    }

    /// The sum of two vectors, coordinate by coordinate.
    pub open spec fn spec_plus(&self, other: &IVec3) -> IVec3
        recommends
            i32::MIN <= self.x + other.x <= i32::MAX,
            i32::MIN <= self.y + other.y <= i32::MAX,
            i32::MIN <= self.z + other.z <= i32::MAX,
    {
        IVec3::from_ints(self.x + other.x, self.y + other.y, self.z + other.z)
    }

    /// The sum of two vectors whose coordinates have sums that fit in 32
    /// bits.
    #[verifier::when_used_as_spec(spec_plus)]
    pub fn plus(&self, other: &IVec3) -> (sum: IVec3)
        requires
            i32::MIN <= self.x + other.x <= i32::MAX,
            i32::MIN <= self.y + other.y <= i32::MAX,
            i32::MIN <= self.z + other.z <= i32::MAX,
        ensures
            sum == self.spec_plus(other),
            sum.x == self.x + other.x,
            sum.y == self.y + other.y,
            sum.z == self.z + other.z,
    {
        IVec3 { x: self.x + other.x, y: self.y + other.y, z: self.z + other.z }
    }

    /// The opposite vector.
    pub open spec fn spec_negated(&self) -> IVec3
        recommends
            self.x > i32::MIN,
            self.y > i32::MIN,
            self.z > i32::MIN,
    {
        IVec3::from_ints(-self.x, -self.y, -self.z)
    }

    /// The opposite of a vector none of whose coordinates is the least
    /// 32-bit integer.
    #[verifier::when_used_as_spec(spec_negated)]
    pub fn negated(&self) -> (opposite: IVec3)
        requires
            self.x > i32::MIN,
            self.y > i32::MIN,
            self.z > i32::MIN,
        ensures
            opposite == self.spec_negated(),
            opposite.x == -self.x,
            opposite.y == -self.y,
            opposite.z == -self.z,
    {
        IVec3 { x: -self.x, y: -self.y, z: -self.z }
    }

    /// The dot product, as a mathematical integer.
    pub open spec fn spec_dot(&self, other: &IVec3) -> int {
        self.x * other.x + self.y * other.y + self.z * other.z
    }

    /// The dot product. Its magnitude is at most 3 * 2^62, so it is returned
    /// in 128 bits.
    pub fn dot(&self, other: &IVec3) -> (product: i128)
        ensures
            product == self.spec_dot(other),
            -0xc000_0000_0000_0000 <= product <= 0xc000_0000_0000_0000,
    {
        let px: i64 = mul_wide(self.x, other.x);
        let py: i64 = mul_wide(self.y, other.y);
        let pz: i64 = mul_wide(self.z, other.z);
        assert(-0x4000_0000_0000_0000 <= self.x * other.x <= 0x4000_0000_0000_0000
            && -0x4000_0000_0000_0000 <= self.y * other.y <= 0x4000_0000_0000_0000
            && -0x4000_0000_0000_0000 <= self.z * other.z <= 0x4000_0000_0000_0000)
            by (nonlinear_arith)
            requires
                -0x8000_0000 <= self.x <= 0x7fff_ffff,
                -0x8000_0000 <= self.y <= 0x7fff_ffff,
                -0x8000_0000 <= self.z <= 0x7fff_ffff,
                -0x8000_0000 <= other.x <= 0x7fff_ffff,
                -0x8000_0000 <= other.y <= 0x7fff_ffff,
                -0x8000_0000 <= other.z <= 0x7fff_ffff,
        ;
        (px as i128) + (py as i128) + (pz as i128)
    }

    /// The squared Euclidean length, as a mathematical integer.
    pub open spec fn spec_length_squared(&self) -> int {
        self.spec_dot(self)
    }

    /// The squared Euclidean length, which is at most 3 * 2^62.
    pub fn length_squared(&self) -> (square: u64)
        ensures
            square == self.spec_length_squared(),
            square <= 0xc000_0000_0000_0000,
    {
        let d: i128 = self.dot(self);
        assert(0 <= self.x * self.x && 0 <= self.y * self.y && 0 <= self.z * self.z)
            by (nonlinear_arith);
        d as u64
    }

    /// The greatest of the three distances between two points along the
    /// axes.
    pub open spec fn chebyshev_distance(&self, other: &IVec3) -> int {
        let dx = if self.x >= other.x {
            self.x - other.x
        } else {
            other.x - self.x
        };
        let dy = if self.y >= other.y {
            self.y - other.y
        } else {
            other.y - self.y
        };
        let dz = if self.z >= other.z {
            self.z - other.z
        } else {
            other.z - self.z
        };
        if dx >= dy && dx >= dz {
            dx
        } else if dy >= dz {
            dy
        } else {
            dz
        }
    }

    /// The squared Euclidean distance between two points.
    pub open spec fn distance_squared(&self, other: &IVec3) -> int {
        (self.x - other.x) * (self.x - other.x) + (self.y - other.y) * (self.y - other.y) + (self.z
            - other.z) * (self.z - other.z)
    }
}

/// An axis-aligned box: the lattice points between two corners, both
/// included. A box whose `min` exceeds its `max` on some axis holds no point.
#[derive(Clone, Copy, Debug, PartialEq, Eq, Structural)]
pub struct Aabb {
    pub min: IVec3,
    pub max: IVec3,
}

impl Aabb {
    /// Whether `p` lies in the box.
    pub open spec fn contains(&self, p: IVec3) -> bool {
        &&& self.min.x <= p.x <= self.max.x
        &&& self.min.y <= p.y <= self.max.y
        &&& self.min.z <= p.z <= self.max.z
    }

    /// Whether the box holds at least one point.
    pub open spec fn spec_is_non_empty(&self) -> bool {
        &&& self.min.x <= self.max.x
        &&& self.min.y <= self.max.y
        &&& self.min.z <= self.max.z
    }

    /// Whether the box holds at least one point.
    #[verifier::when_used_as_spec(spec_is_non_empty)]
    pub fn is_non_empty(&self) -> (non_empty: bool)
        ensures
            non_empty == self.spec_is_non_empty(),
    {
        self.min.x <= self.max.x && self.min.y <= self.max.y && self.min.z <= self.max.z
    }

    /// The box that holds the single point `p`.
    pub fn point(p: IVec3) -> (b: Aabb)
        ensures
            b == (Aabb { min: p, max: p }),
            forall|q: IVec3| b.contains(q) <==> q == p,
    {
        Aabb { min: p, max: p }
    }
}

/// A ball: the lattice points within `radius` of `center`, boundary
/// included. It always holds its center.
#[derive(Clone, Copy, Debug, PartialEq, Eq, Structural)]
pub struct Sphere {
    pub center: IVec3,
    pub radius: u32,
}

impl Sphere {
    /// Whether `p` lies in the ball.
    pub open spec fn contains(&self, p: IVec3) -> bool {
        p.distance_squared(&self.center) <= self.radius * self.radius
    }
}

/// The volume that encloses an entity's geometry.
#[derive(Clone, Copy, Debug, PartialEq, Eq, Structural)]
pub enum BoundingVolume {
    Sphere(Sphere),
    Aabb(Aabb),
}

impl BoundingVolume {
    /// Whether `p` lies in the volume.
    pub open spec fn contains(&self, p: IVec3) -> bool {
        match *self {
            BoundingVolume::Sphere(s) => s.contains(p),
            BoundingVolume::Aabb(b) => b.contains(p),
        }
    }

    /// Whether the volume holds at least one point.
    pub open spec fn is_non_empty(&self) -> bool {
        match *self {
            BoundingVolume::Sphere(_) => true,
            BoundingVolume::Aabb(b) => b.is_non_empty(),
        }
    }

    /// A volume that is not empty holds a point: a ball its center, a box
    /// its least corner.
    pub proof fn lemma_holds_a_point(&self) -> (p: IVec3)
        requires
            self.is_non_empty(),
        ensures
            self.contains(p),
    {
        match *self {
            BoundingVolume::Sphere(s) => {
                assert(s.radius * s.radius >= 0) by (nonlinear_arith);
                s.center
            },
            BoundingVolume::Aabb(b) => b.min,
        }
    }
}

/// The smaller of `n * lo` and `n * hi`: the least value of `n * t` for `t`
/// between `lo` and `hi`.
pub open spec fn least_product(n: int, lo: int, hi: int) -> int {
    if n * lo <= n * hi {
        n * lo
    } else {
        n * hi
    }
}

/// A half-space with an outward-facing normal. A point `p` is on the inner
/// side when `normal . p <= distance`; the boundary belongs to the inner
/// side. The normal need not have unit length: `distance` is measured in
/// units of the normal's length.
#[derive(Clone, Copy, Debug, PartialEq, Eq, Structural)]
pub struct Plane {
    pub normal: IVec3,
    pub distance: i64,
}

impl Plane {
    /// How far `p` is beyond the plane, in units of the normal's length:
    /// positive outside, zero on the plane, negative inside.
    pub open spec fn offset(&self, p: IVec3) -> int {
        self.normal.spec_dot(&p) - self.distance
    }

    /// Whether `p` is on the inner side.
    pub open spec fn spec_contains(&self, p: &IVec3) -> bool {
        self.offset(*p) <= 0
    }

    /// Whether `p` is on the inner side.
    #[verifier::when_used_as_spec(spec_contains)]
    pub fn contains(&self, p: &IVec3) -> (inside: bool)
        ensures
            inside == self.spec_contains(p),
    {
        self.normal.dot(p) <= self.distance as i128
    }

    /// The offset of the corner of `b` that reaches deepest into the inner
    /// side.
    pub open spec fn least_offset(&self, b: &Aabb) -> int {
        least_product(self.normal.x as int, b.min.x as int, b.max.x as int) + least_product(
            self.normal.y as int,
            b.min.y as int,
            b.max.y as int,
        ) + least_product(self.normal.z as int, b.min.z as int, b.max.z as int) - self.distance
    }

    /// Whether the whole box is strictly outside: even its deepest corner is.
    pub open spec fn spec_rejects_aabb(&self, b: &Aabb) -> bool {
        self.least_offset(b) > 0
    }

    /// Whether the whole box is strictly outside.
    #[verifier::when_used_as_spec(spec_rejects_aabb)]
    pub fn rejects_aabb(&self, b: &Aabb) -> (rejected: bool)
        ensures
            rejected == self.spec_rejects_aabb(b),
    {
        let x_lo: i64 = mul_wide(self.normal.x, b.min.x);
        let x_hi: i64 = mul_wide(self.normal.x, b.max.x);
        let y_lo: i64 = mul_wide(self.normal.y, b.min.y);
        let y_hi: i64 = mul_wide(self.normal.y, b.max.y);
        let z_lo: i64 = mul_wide(self.normal.z, b.min.z);
        let z_hi: i64 = mul_wide(self.normal.z, b.max.z);
        let x: i64 = if x_lo <= x_hi { x_lo } else { x_hi };
        let y: i64 = if y_lo <= y_hi { y_lo } else { y_hi };
        let z: i64 = if z_lo <= z_hi { z_lo } else { z_hi };
        let least: i128 = (x as i128) + (y as i128) + (z as i128);
        least > self.distance as i128
    }

    /// Whether the whole ball is strictly outside: its center is outside, and
    /// farther from the plane than the radius. With `o` the center's offset
    /// and `n` the normal, that is `o > radius * |n|`, which is compared in
    /// squares.
    pub open spec fn spec_rejects_sphere(&self, s: &Sphere) -> bool {
        let o = self.offset(s.center);
        o > 0 && o * o > (s.radius * s.radius) * self.normal.spec_length_squared()
    }

    /// Whether the whole ball is strictly outside.
    #[verifier::when_used_as_spec(spec_rejects_sphere)]
    pub fn rejects_sphere(&self, s: &Sphere) -> (rejected: bool)
        ensures
            rejected == self.spec_rejects_sphere(s),
    {
        let o: i128 = self.normal.dot(&s.center) - (self.distance as i128);
        if o <= 0 {
            return false;
        }
        let r: u64 = s.radius as u64;
        assert(r * r <= 0xffff_ffff_0000_0000) by (nonlinear_arith)
            requires
                0 <= r <= 0xffff_ffff,
        ;
        let r2: u64 = r * r;
        let n2: u64 = self.normal.length_squared();
        assert(r2 * n2 < 0xc000_0000_0000_0000_0000_0000_0000_0000) by (nonlinear_arith)
            requires
                0 <= r2 <= 0xffff_ffff_0000_0000,
                0 <= n2 <= 0xc000_0000_0000_0000,
        ;
        let reach: u128 = (r2 as u128) * (n2 as u128);
        if o >= 0x1_0000_0000_0000_0000 {
            assert(o * o >= 0x1_0000_0000_0000_0000_0000_0000_0000_0000) by (nonlinear_arith)
                requires
                    o >= 0x1_0000_0000_0000_0000,
            ;
            return true;
        }
        assert(o * o < 0x1_0000_0000_0000_0000_0000_0000_0000_0000) by (nonlinear_arith)
            requires
                0 < o < 0x1_0000_0000_0000_0000,
        ;
        let o2: u128 = (o as u128) * (o as u128);
        o2 > reach
    }

    /// Whether the whole volume is strictly outside.
    pub open spec fn spec_rejects(&self, volume: &BoundingVolume) -> bool {
        match *volume {
            BoundingVolume::Sphere(s) => self.spec_rejects_sphere(&s),
            BoundingVolume::Aabb(b) => self.spec_rejects_aabb(&b),
        }
    }

    /// Whether the whole volume is strictly outside.
    #[verifier::when_used_as_spec(spec_rejects)]
    pub fn rejects(&self, volume: &BoundingVolume) -> (rejected: bool)
        ensures
            rejected == self.spec_rejects(volume),
    {
        match volume {
            BoundingVolume::Sphere(s) => self.rejects_sphere(s),
            BoundingVolume::Aabb(b) => self.rejects_aabb(b),
        }
    }
}

/// `n * t` is at least `least_product(n, lo, hi)` for every `t` between `lo`
/// and `hi`.
pub proof fn lemma_least_product_is_least(n: int, lo: int, hi: int, t: int)
    requires
        lo <= t <= hi,
    ensures
        least_product(n, lo, hi) <= n * t,
{
    assert(n * lo <= n * t || n * hi <= n * t) by (nonlinear_arith)
        requires
            lo <= t <= hi,
    ;
}

/// In two dimensions: the squared cross product is what the product of the
/// squared lengths has above the squared dot product.
proof fn lemma_lagrange_pair(a: int, b: int, c: int, d: int)
    ensures
        (a * a) * (d * d) + (c * c) * (b * b) - 2 * ((a * b) * (c * d)) == (a * d - c * b) * (a * d
            - c * b),
        (a * d - c * b) * (a * d - c * b) >= 0,
{
    let (p, q) = (a * d, c * b);
    assert((p - q) * (p - q) == p * p - 2 * (p * q) + q * q) by (nonlinear_arith);
    assert((p - q) * (p - q) >= 0) by (nonlinear_arith);
    assert(p * p == (a * a) * (d * d)) by (nonlinear_arith)
        requires
            p == a * d,
    ;
    assert(q * q == (c * c) * (b * b)) by (nonlinear_arith)
        requires
            q == c * b,
    ;
    assert(p * q == (a * b) * (c * d)) by (nonlinear_arith)
        requires
            p == a * d,
            q == c * b,
    ;
}

/// The Cauchy-Schwarz inequality for integer vectors in three dimensions.
pub proof fn lemma_cauchy_schwarz(a1: int, a2: int, a3: int, b1: int, b2: int, b3: int)
    ensures
        (a1 * b1 + a2 * b2 + a3 * b3) * (a1 * b1 + a2 * b2 + a3 * b3) <= (a1 * a1 + a2 * a2 + a3
            * a3) * (b1 * b1 + b2 * b2 + b3 * b3),
{
    lemma_lagrange_pair(a1, b1, a2, b2);
    lemma_lagrange_pair(a1, b1, a3, b3);
    lemma_lagrange_pair(a2, b2, a3, b3);
    let (x1, x2, x3) = (a1 * b1, a2 * b2, a3 * b3);
    let (s1, s2, s3) = (a1 * a1, a2 * a2, a3 * a3);
    let (t1, t2, t3) = (b1 * b1, b2 * b2, b3 * b3);
    assert((x1 + x2 + x3) * (x1 + x2 + x3) == x1 * x1 + x2 * x2 + x3 * x3 + 2 * (x1 * x2) + 2 * (x1
        * x3) + 2 * (x2 * x3)) by (nonlinear_arith);
    assert((s1 + s2 + s3) * (t1 + t2 + t3) == s1 * t1 + s1 * t2 + s1 * t3 + s2 * t1 + s2 * t2 + s2
        * t3 + s3 * t1 + s3 * t2 + s3 * t3) by (nonlinear_arith);
    assert(x1 * x1 == s1 * t1) by (nonlinear_arith)
        requires
            x1 == a1 * b1,
            s1 == a1 * a1,
            t1 == b1 * b1,
    ;
    assert(x2 * x2 == s2 * t2) by (nonlinear_arith)
        requires
            x2 == a2 * b2,
            s2 == a2 * a2,
            t2 == b2 * b2,
    ;
    assert(x3 * x3 == s3 * t3) by (nonlinear_arith)
        requires
            x3 == a3 * b3,
            s3 == a3 * a3,
            t3 == b3 * b3,
    ;
}

impl Plane {
    /// No point of a box is deeper inside than the box's least offset.
    pub proof fn lemma_least_offset_is_least(&self, b: &Aabb, p: IVec3)
        requires
            b.contains(p),
        ensures
            self.least_offset(b) <= self.offset(p),
    {
        lemma_least_product_is_least(
            self.normal.x as int,
            b.min.x as int,
            b.max.x as int,
            p.x as int,
        );
        lemma_least_product_is_least(
            self.normal.y as int,
            b.min.y as int,
            b.max.y as int,
            p.y as int,
        );
        lemma_least_product_is_least(
            self.normal.z as int,
            b.min.z as int,
            b.max.z as int,
            p.z as int,
        );
    }

    /// In a box that holds a point, some corner has the box's least offset.
    pub proof fn lemma_least_offset_is_attained(&self, b: &Aabb) -> (p: IVec3)
        requires
            b.is_non_empty(),
        ensures
            b.contains(p),
            self.offset(p) == self.least_offset(b),
    {
        let n = self.normal;
        IVec3 {
            x: if n.x * b.min.x <= n.x * b.max.x {
                b.min.x
            } else {
                b.max.x
            },
            y: if n.y * b.min.y <= n.y * b.max.y {
                b.min.y
            } else {
                b.max.y
            },
            z: if n.z * b.min.z <= n.z * b.max.z {
                b.min.z
            } else {
                b.max.z
            },
        }
    }

    /// A box that holds a point is rejected exactly when all its points are
    /// outside.
    pub proof fn lemma_rejects_aabb_is_exact(&self, b: &Aabb)
        requires
            b.is_non_empty(),
        ensures
            self.rejects_aabb(b) <==> (forall|p: IVec3| b.contains(p) ==> !self.contains(&p)),
    {
        let corner = self.lemma_least_offset_is_attained(b);
        assert forall|p: IVec3| self.rejects_aabb(b) && b.contains(p) implies !self.contains(
            &p,
        ) by {
            self.lemma_least_offset_is_least(b, p);
        }
    }

    /// No point of a rejected ball is on the inner side.
    pub proof fn lemma_rejects_sphere_is_sound(&self, s: &Sphere, p: IVec3)
        requires
            self.rejects_sphere(s),
            s.contains(p),
        ensures
            !self.contains(&p),
    {
        let n = self.normal;
        let c = s.center;
        let (v1, v2, v3) = (c.x - p.x, c.y - p.y, c.z - p.z);
        let o = self.offset(c);
        let along = n.x * v1 + n.y * v2 + n.z * v3;
        let n2 = n.spec_length_squared();
        let v2sum = v1 * v1 + v2 * v2 + v3 * v3;
        let r2 = s.radius * s.radius;
        assert(along == n.spec_dot(&c) - n.spec_dot(&p)) by (nonlinear_arith)
            requires
                along == n.x * v1 + n.y * v2 + n.z * v3,
                v1 == c.x - p.x,
                v2 == c.y - p.y,
                v3 == c.z - p.z,
                n.spec_dot(&c) == n.x * c.x + n.y * c.y + n.z * c.z,
                n.spec_dot(&p) == n.x * p.x + n.y * p.y + n.z * p.z,
        ;
        assert(v2sum == p.distance_squared(&c)) by (nonlinear_arith)
            requires
                v2sum == v1 * v1 + v2 * v2 + v3 * v3,
                v1 == c.x - p.x,
                v2 == c.y - p.y,
                v3 == c.z - p.z,
                p.distance_squared(&c) == (p.x - c.x) * (p.x - c.x) + (p.y - c.y) * (p.y - c.y) + (
                p.z - c.z) * (p.z - c.z),
        ;
        if self.contains(&p) {
            assert(along >= o);
            assert(along * along >= o * o) by (nonlinear_arith)
                requires
                    along >= o,
                    o > 0,
            ;
            lemma_cauchy_schwarz(n.x as int, n.y as int, n.z as int, v1, v2, v3);
            assert(n2 >= 0) by (nonlinear_arith)
                requires
                    n2 == n.x * n.x + n.y * n.y + n.z * n.z,
            ;
            assert(n2 * v2sum <= r2 * n2) by (nonlinear_arith)
                requires
                    n2 >= 0,
                    v2sum <= r2,
            ;
            assert(false);
        }
    }

    /// No point of a rejected volume is on the inner side.
    pub proof fn lemma_rejects_is_sound(&self, volume: &BoundingVolume, p: IVec3)
        requires
            self.rejects(volume),
            volume.contains(p),
        ensures
            !self.contains(&p),
    {
        match *volume {
            BoundingVolume::Sphere(s) => {
                self.lemma_rejects_sphere_is_sound(&s, p);
            },
            BoundingVolume::Aabb(b) => {
                self.lemma_least_offset_is_least(&b, p);
            },
        }
    }
}

} // verus!
