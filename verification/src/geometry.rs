//! Points, directions and normals in space, rays, and the exact arithmetic on them.

use crate::fixed::{
    fixed_add, fixed_neg, fixed_sub, floor_sqrt, fx, int_sqrt, is_floor_sqrt,
    lemma_floor_sqrt_exists, lemma_floor_sqrt_lower, lemma_product_bound,
    lemma_quot_away_bound, lemma_quot_away_reaches, magnitude, quot, quot_away, saturate,
    wide_mul, wide_quot, wide_quot_away, Fixed, ONE,
};
use crate::medium::MediumId;
use vstd::prelude::*;

verus! {

/// Two to the power 32: the square of the scalar one.
pub const ONE_SQUARED: i128 = 0x1_0000_0000;

/// A triple of scalars. Points, directions and normals share this representation.
#[derive(Clone, Copy, Debug, PartialEq, Eq, Structural)]
pub struct Vector3 {
    pub x: Fixed,
    pub y: Fixed,
    pub z: Fixed,
}

/// A position in space.
pub type Point3 = Vector3;

/// A surface normal.
pub type Normal3 = Vector3;

/// A pair of scalars.
#[derive(Clone, Copy, Debug, PartialEq, Eq, Structural)]
pub struct Point2 {
    pub x: Fixed,
    pub y: Fixed,
}

/// A pixel position.
#[derive(Clone, Copy, Debug, PartialEq, Eq, Structural)]
pub struct Point2i {
    pub x: i32,
    pub y: i32,
}

/// A rectangle of pixels.
#[derive(Clone, Copy, Debug, PartialEq, Eq, Structural)]
pub struct Bounds2i {
    pub p_min: Point2i,
    pub p_max: Point2i,
}

/// One of the three world axes.
#[derive(Clone, Copy, Debug, PartialEq, Eq, Structural)]
pub enum Axis {
    X,
    Y,
    Z,
}

/// The two rays through the neighbouring pixels in x and in y.
#[derive(Clone, Copy, Debug, PartialEq, Eq, Structural)]
pub struct RayDifferential {
    pub rx_origin: Point3,
    pub ry_origin: Point3,
    pub rx_direction: Vector3,
    pub ry_direction: Vector3,
}

/// A ray: the points `o + t * d` for `0 <= t <= t_max`.
#[derive(Clone, Copy, Debug, PartialEq, Eq)]
pub struct Ray {
    pub o: Point3,
    pub d: Vector3,
    /// The largest parameter; `FIXED_MAX` when the ray is unbounded.
    pub t_max: Fixed,
    pub time: Fixed,
    pub differential: Option<RayDifferential>,
    /// The medium the ray travels in, if any.
    pub medium: Option<MediumId>,
}

impl Vector3 {
    /// The zero vector.
    pub open spec fn zero() -> Vector3 {
        Vector3 { x: 0, y: 0, z: 0 }
    }

    /// The exact dot product of the raw components (its unit is `ONE * ONE`).
    pub open spec fn dot(self, o: Vector3) -> int {
        self.x * o.x + self.y * o.y + self.z * o.z
    }

    /// The exact squared length of the raw components (its unit is `ONE * ONE`).
    pub open spec fn norm_squared(self) -> int {
        self.dot(self)
    }

    /// The component along an axis.
    pub open spec fn component(self, axis: Axis) -> Fixed {
        match axis {
            Axis::X => self.x,
            Axis::Y => self.y,
            Axis::Z => self.z,
        }
    }

    /// The componentwise sum, each component kept in range.
    pub open spec fn plus(self, o: Vector3) -> Vector3 {
        Vector3 { x: fx(self.x + o.x), y: fx(self.y + o.y), z: fx(self.z + o.z) }
    }

    /// The componentwise difference, each component kept in range.
    pub open spec fn minus(self, o: Vector3) -> Vector3 {
        Vector3 { x: fx(self.x - o.x), y: fx(self.y - o.y), z: fx(self.z - o.z) }
    }

    /// The opposite vector, each component kept in range.
    pub open spec fn negated(self) -> Vector3 {
        Vector3 { x: fx(-self.x), y: fx(-self.y), z: fx(-self.z) }
    }

    /// The vector times a scalar, each component rounded toward zero and kept in range.
    pub open spec fn scaled(self, k: Fixed) -> Vector3 {
        Vector3 {
            x: fx(quot(self.x * k, ONE as int)),
            y: fx(quot(self.y * k, ONE as int)),
            z: fx(quot(self.z * k, ONE as int)),
        }
    }

    /// The cross product, each component rounded toward zero and kept in range.
    pub open spec fn cross(self, o: Vector3) -> Vector3 {
        Vector3 {
            x: fx(quot(self.y * o.z - self.z * o.y, ONE as int)),
            y: fx(quot(self.z * o.x - self.x * o.z, ONE as int)),
            z: fx(quot(self.x * o.y - self.y * o.x, ONE as int)),
        }
    }

    /// The length of the vector in units of `1 / (ONE * ONE)`, rounded down.
    pub open spec fn fine_length(self) -> int {
        floor_sqrt(self.norm_squared() * ONE_SQUARED)
    }

    /// The vector scaled to unit length. Each component is rounded away from zero, so the
    /// result is never shorter than one. The zero vector stays as it is.
    pub open spec fn normalized(self) -> Vector3 {
        if self.norm_squared() == 0 {
            self
        } else {
            Vector3 {
                x: fx(quot_away(self.x * ONE_SQUARED, self.fine_length())),
                y: fx(quot_away(self.y * ONE_SQUARED, self.fine_length())),
                z: fx(quot_away(self.z * ONE_SQUARED, self.fine_length())),
            }
        }
    }

    /// The vector itself, or its opposite where it points away from `v`.
    pub open spec fn facing(self, v: Vector3) -> Vector3 {
        if self.dot(v) < 0 {
            self.negated()
        } else {
            self
        }
    }

    /// Whether every component can be negated exactly.
    pub open spec fn negatable(self) -> bool {
        self.x > i32::MIN && self.y > i32::MIN && self.z > i32::MIN
    }

    /// Whether no component exceeds one in magnitude.
    pub open spec fn is_bounded(self) -> bool {
        &&& -ONE <= self.x <= ONE
        &&& -ONE <= self.y <= ONE
        &&& -ONE <= self.z <= ONE
    }

    /// Whether the vector counts as a unit vector: no component exceeds one in magnitude
    /// and the vector is not shorter than one.
    pub open spec fn is_unit(self) -> bool {
        self.is_bounded() && self.norm_squared() >= ONE_SQUARED
    }
}

/// How far the box of half-widths `e` reaches along the normal `n` (its unit is `ONE * ONE`).
pub open spec fn error_reach(n: Normal3, e: Vector3) -> int {
    magnitude(n.x as int) * e.x + magnitude(n.y as int) * e.y + magnitude(n.z as int) * e.z
}

/// The step off the surface along the normal `n`, on the side that `w` points to. Each
/// component is rounded away from zero, so the step is never shorter than the reach of the
/// error box along a normal of unit length.
pub open spec fn ray_offset(n: Normal3, e: Vector3, w: Vector3) -> (int, int, int) {
    let reach = error_reach(n, e);
    let ox = quot_away(n.x * reach, ONE_SQUARED as int);
    let oy = quot_away(n.y * reach, ONE_SQUARED as int);
    let oz = quot_away(n.z * reach, ONE_SQUARED as int);
    if w.dot(n) < 0 {
        (-ox, -oy, -oz)
    } else {
        (ox, oy, oz)
    }
}

/// The origin of a ray that leaves the point `p`, known to within the box of half-widths
/// `e`, toward `w`: `p` moved by `ray_offset`, each coordinate kept in range.
pub open spec fn offset_ray_origin(p: Point3, e: Vector3, n: Normal3, w: Vector3) -> Point3 {
    let off = ray_offset(n, e, w);
    Point3 { x: fx(p.x + off.0), y: fx(p.y + off.1), z: fx(p.z + off.2) }
}

/// The exact dot product of two vectors.
pub fn vec3_dot(a: &Vector3, b: &Vector3) -> (r: i128)
    ensures
        r == a.dot(*b),
        -0xc000_0000_0000_0000 <= r <= 0xc000_0000_0000_0000,
{
    wide_mul(a.x, b.x) + wide_mul(a.y, b.y) + wide_mul(a.z, b.z)
}

/// The magnitude of the exact dot product of two vectors.
pub fn vec3_abs_dot(a: &Vector3, b: &Vector3) -> (r: i128)
    ensures
        r == magnitude(a.dot(*b)),
        0 <= r <= 0xc000_0000_0000_0000,
{
    let d: i128 = vec3_dot(a, b);
    if d < 0 {
        -d
    } else {
        d
    }
}

/// The component of a vector along an axis.
pub fn vec3_component(v: &Vector3, axis: Axis) -> (r: Fixed)
    ensures
        r == v.component(axis),
{
    match axis {
        Axis::X => v.x,
        Axis::Y => v.y,
        Axis::Z => v.z,
    }
}

/// The componentwise sum of two vectors.
pub fn vec3_add(a: &Vector3, b: &Vector3) -> (r: Vector3)
    ensures
        r == a.plus(*b),
{
    Vector3 { x: fixed_add(a.x, b.x), y: fixed_add(a.y, b.y), z: fixed_add(a.z, b.z) }
}

/// The componentwise difference of two vectors.
pub fn vec3_sub(a: &Vector3, b: &Vector3) -> (r: Vector3)
    ensures
        r == a.minus(*b),
{
    Vector3 { x: fixed_sub(a.x, b.x), y: fixed_sub(a.y, b.y), z: fixed_sub(a.z, b.z) }
}

/// The opposite of a vector.
pub fn vec3_neg(a: &Vector3) -> (r: Vector3)
    ensures
        r == a.negated(),
{
    Vector3 { x: fixed_neg(a.x), y: fixed_neg(a.y), z: fixed_neg(a.z) }
}

/// A vector times a scalar.
pub fn vec3_scale(a: &Vector3, k: Fixed) -> (r: Vector3)
    ensures
        r == a.scaled(k),
{
    Vector3 {
        x: saturate(wide_quot(wide_mul(a.x, k), ONE as i128)),
        y: saturate(wide_quot(wide_mul(a.y, k), ONE as i128)),
        z: saturate(wide_quot(wide_mul(a.z, k), ONE as i128)),
    }
}

/// The cross product of two vectors.
pub fn vec3_cross(a: &Vector3, b: &Vector3) -> (r: Vector3)
    ensures
        r == a.cross(*b),
{
    let cx: i128 = wide_mul(a.y, b.z) - wide_mul(a.z, b.y);
    let cy: i128 = wide_mul(a.z, b.x) - wide_mul(a.x, b.z);
    let cz: i128 = wide_mul(a.x, b.y) - wide_mul(a.y, b.x);
    Vector3 {
        x: saturate(wide_quot(cx, ONE as i128)),
        y: saturate(wide_quot(cy, ONE as i128)),
        z: saturate(wide_quot(cz, ONE as i128)),
    }
}

/// One component of a vector of unit length: `c` divided by the vector's fine length.
fn unit_component(c: Fixed, len: u128) -> (r: Fixed)
    requires
        0 < len < 0x1_0000_0000_0000_0000,
        magnitude(c as int) * 0x1_0000 <= len,
    ensures
        r == quot_away(c * ONE_SQUARED, len as int),
        -ONE <= r <= ONE,
{
    let wide: i128 = (c as i128) * ONE_SQUARED;
    proof {
        lemma_quot_away_bound(magnitude(c as int) * ONE_SQUARED, len as int, 0x1_0000);
    }
    let q: i128 = wide_quot_away(wide, len as i128);
    q as i32
}

/// The vector scaled to unit length; the zero vector stays as it is.
pub fn vec3_normalize(v: &Vector3) -> (r: Vector3)
    ensures
        r == v.normalized(),
        r.is_bounded(),
{
    let s: i128 = vec3_dot(v, v);
    assert(s >= 0) by (nonlinear_arith)
        requires
            s == v.x * v.x + v.y * v.y + v.z * v.z,
    ;
    if s == 0 {
        proof {
            lemma_zero_length(v.x as int, v.y as int, v.z as int);
        }
        return *v;
    }
    let len: u128 = int_sqrt((s as u128) * 0x1_0000_0000);
    proof {
        let n = s * ONE_SQUARED;
        assert(len == v.fine_length());
        lemma_component_below_length(v.x as int, v.y as int, v.z as int, len as int);
        lemma_component_below_length(v.y as int, v.z as int, v.x as int, len as int);
        lemma_component_below_length(v.z as int, v.x as int, v.y as int, len as int);
    }
    Vector3 {
        x: unit_component(v.x, len),
        y: unit_component(v.y, len),
        z: unit_component(v.z, len),
    }
}

/// Only the zero vector has length zero.
pub proof fn lemma_zero_length(a: int, b: int, c: int)
    by (nonlinear_arith)
    requires
        a * a + b * b + c * c == 0,
    ensures
        a == 0 && b == 0 && c == 0,
{
}

/// No component of a vector is longer than the vector: with `len` the fine length of
/// `(a, b, c)`, the magnitude of `a` in the same unit is at most `len`.
pub proof fn lemma_component_below_length(a: int, b: int, c: int, len: int)
    requires
        is_floor_sqrt((a * a + b * b + c * c) * ONE_SQUARED, len),
        a * a + b * b + c * c > 0,
    ensures
        magnitude(a) * 0x1_0000 <= len,
        len > 0,
{
    let m = magnitude(a) * 0x1_0000;
    assert(magnitude(a) * magnitude(a) == a * a) by (nonlinear_arith);
    assert(m * m <= (a * a + b * b + c * c) * ONE_SQUARED) by (nonlinear_arith)
        requires
            m == magnitude(a) * 0x1_0000,
            ONE_SQUARED == 0x1_0000_0000,
            magnitude(a) * magnitude(a) == a * a,
    ;
    lemma_floor_sqrt_lower((a * a + b * b + c * c) * ONE_SQUARED, len, m);
    assert(0x1_0000int * 0x1_0000int <= (a * a + b * b + c * c) * ONE_SQUARED) by (nonlinear_arith)
        requires
            a * a + b * b + c * c > 0,
            ONE_SQUARED == 0x1_0000_0000,
    ;
    lemma_floor_sqrt_lower((a * a + b * b + c * c) * ONE_SQUARED, len, 0x1_0000);
}

/// The normal `n`, or its opposite where it points away from `v`.
pub fn nrm_faceforward(n: &Normal3, v: &Vector3) -> (r: Normal3)
    ensures
        r == n.facing(*v),
{
    if vec3_dot(n, v) < 0 {
        vec3_neg(n)
    } else {
        *n
    }
}

/// The origin of a ray that leaves the point `p` toward `w`, moved off the surface along
/// the normal `n` by the reach of the error box `e`.
pub fn pnt3_offset_ray_origin(p: &Point3, e: &Vector3, n: &Normal3, w: &Vector3) -> (r: Point3)
    ensures
        r == offset_ray_origin(*p, *e, *n, *w),
{
    let ax: i128 = if n.x < 0 { -(n.x as i128) } else { n.x as i128 };
    let ay: i128 = if n.y < 0 { -(n.y as i128) } else { n.y as i128 };
    let az: i128 = if n.z < 0 { -(n.z as i128) } else { n.z as i128 };
    proof {
        lemma_product_bound(ax as int, e.x as int, 0x8000_0000, 0x8000_0000);
        lemma_product_bound(ay as int, e.y as int, 0x8000_0000, 0x8000_0000);
        lemma_product_bound(az as int, e.z as int, 0x8000_0000, 0x8000_0000);
    }
    let reach: i128 = ax * (e.x as i128) + ay * (e.y as i128) + az * (e.z as i128);
    proof {
        lemma_product_bound(n.x as int, reach as int, 0x8000_0000, 0xc000_0000_0000_0000);
        lemma_product_bound(n.y as int, reach as int, 0x8000_0000, 0xc000_0000_0000_0000);
        lemma_product_bound(n.z as int, reach as int, 0x8000_0000, 0xc000_0000_0000_0000);
    }
    let mut ox: i128 = wide_quot_away((n.x as i128) * reach, ONE_SQUARED);
    let mut oy: i128 = wide_quot_away((n.y as i128) * reach, ONE_SQUARED);
    let mut oz: i128 = wide_quot_away((n.z as i128) * reach, ONE_SQUARED);
    proof {
        lemma_offset_bound(n.x * reach);
        lemma_offset_bound(n.y * reach);
        lemma_offset_bound(n.z * reach);
    }
    if vec3_dot(w, n) < 0 {
        ox = -ox;
        oy = -oy;
        oz = -oz;
    }
    Point3 {
        x: saturate(p.x as i128 + ox),
        y: saturate(p.y as i128 + oy),
        z: saturate(p.z as i128 + oz),
    }
}

/// A step rounded away from zero stays within the magnitude of its numerator.
pub proof fn lemma_offset_bound(a: int)
    ensures
        -magnitude(a) <= quot_away(a, ONE_SQUARED as int) <= magnitude(a),
{
}

/// One component of a normalized vector: bounded by one, and long enough that its square,
/// times the square of the fine length, reaches the square of the component it came from.
pub proof fn lemma_unit_component(c: int, len: int)
    requires
        len > 0,
        magnitude(c) * 0x1_0000 <= len,
    ensures
        -ONE <= quot_away(c * ONE_SQUARED, len) <= ONE,
        quot_away(c * ONE_SQUARED, len) * quot_away(c * ONE_SQUARED, len) * (len * len) >= c * c
            * (ONE_SQUARED * ONE_SQUARED),
{
    let q = quot_away(c * ONE_SQUARED, len);
    let m = magnitude(c);
    lemma_quot_away_bound(m * ONE_SQUARED, len, 0x1_0000);
    lemma_quot_away_reaches(c * ONE_SQUARED, len);
    assert(magnitude(q) * len >= m * ONE_SQUARED >= 0) by (nonlinear_arith)
        requires
            c >= 0 ==> q * len >= c * ONE_SQUARED && q >= 0,
            c <= 0 ==> q * len <= c * ONE_SQUARED && q <= 0,
            m == magnitude(c),
            ONE_SQUARED == 0x1_0000_0000,
    ;
    assert(q * q * (len * len) >= c * c * (ONE_SQUARED * ONE_SQUARED)) by (nonlinear_arith)
        requires
            magnitude(q) * len >= m * ONE_SQUARED >= 0,
            m == magnitude(c),
    {
        assert(magnitude(q) * magnitude(q) == q * q);
        assert(m * m == c * c);
        assert((magnitude(q) * len) * (magnitude(q) * len) >= (m * ONE_SQUARED) * (m
            * ONE_SQUARED));
    }
}

/// If `q * l >= s * k * k` while `l <= s * k`, then `q >= k`.
pub proof fn lemma_norm_reaches_one(q: int, l: int, s: int, k: int)
    by (nonlinear_arith)
    requires
        q >= 0,
        0 < l <= s * k,
        s > 0,
        k > 0,
        q * l >= s * (k * k),
    ensures
        q >= k,
{
    if q < k {
        assert(q * l <= (k - 1) * l);
        assert((k - 1) * l <= (k - 1) * (s * k));
        assert((k - 1) * (s * k) < s * (k * k));
    }
}

/// A normalized vector counts as a unit vector, unless it is the zero vector, which stays
/// zero: no component exceeds one, and the vector is not shorter than one.
pub proof fn lemma_normalized_is_unit(v: Vector3)
    ensures
        v.normalized().is_bounded(),
        v.norm_squared() != 0 ==> v.normalized().is_unit(),
        v.norm_squared() == 0 ==> v.normalized() == Vector3::zero(),
{
    let s = v.norm_squared();
    assert(s >= 0) by (nonlinear_arith)
        requires
            s == v.x * v.x + v.y * v.y + v.z * v.z,
    ;
    if s == 0 {
        lemma_zero_length(v.x as int, v.y as int, v.z as int);
    } else {
        let len = v.fine_length();
        assert(s * ONE_SQUARED >= 0) by (nonlinear_arith)
            requires
                s >= 0,
                ONE_SQUARED == 0x1_0000_0000,
        ;
        lemma_floor_sqrt_exists(s * ONE_SQUARED);
        lemma_component_below_length(v.x as int, v.y as int, v.z as int, len);
        lemma_component_below_length(v.y as int, v.z as int, v.x as int, len);
        lemma_component_below_length(v.z as int, v.x as int, v.y as int, len);
        lemma_unit_component(v.x as int, len);
        lemma_unit_component(v.y as int, len);
        lemma_unit_component(v.z as int, len);
        let qx = quot_away(v.x * ONE_SQUARED, len);
        let qy = quot_away(v.y * ONE_SQUARED, len);
        let qz = quot_away(v.z * ONE_SQUARED, len);
        let n = v.normalized();
        assert(n.x == qx && n.y == qy && n.z == qz);
        let k = ONE_SQUARED as int;
        let l2 = len * len;
        let q2 = qx * qx + qy * qy + qz * qz;
        assert(q2 * l2 == qx * qx * l2 + qy * qy * l2 + qz * qz * l2) by (nonlinear_arith)
            requires
                q2 == qx * qx + qy * qy + qz * qz,
        ;
        assert(s * (k * k) == v.x * v.x * (k * k) + v.y * v.y * (k * k) + v.z * v.z * (k * k))
            by (nonlinear_arith)
            requires
                s == v.x * v.x + v.y * v.y + v.z * v.z,
        ;
        assert(l2 > 0 && q2 >= 0) by (nonlinear_arith)
            requires
                len > 0,
                l2 == len * len,
                q2 == qx * qx + qy * qy + qz * qz,
        ;
        lemma_norm_reaches_one(q2, l2, s, k);
    }
}

} // verus!
