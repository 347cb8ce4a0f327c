//! Three-component fixed-point vectors. The planar simulation uses the same
//! type and keeps the third component at zero.

use vstd::prelude::*;
use crate::fixed::{abs, ceil_sqrt, div_toward_zero, is_ceil_sqrt, lemma_ceil_sqrt_exists,
    lemma_trunc_div_bounds, lemma_trunc_div_le, sqrt_up, trunc_div, SQRT_LIMIT};

verus! {

/// Largest component magnitude for which lengths can be computed: two to the
/// power 46.
pub const REACH: i64 = 0x4000_0000_0000;

/// Largest length a vector can be resized to: two to the power 23.
pub const LENGTH_LIMIT: i64 = 0x80_0000;

/// Factor by which lengths are refined before a square root is taken.
pub const FINE: i64 = 65_536;

/// The mathematical value of a vector: three unbounded integers.
pub struct Point {
    pub x: int,
    pub y: int,
    pub z: int,
}

impl Point {
    pub open spec fn zero() -> Point {
        Point { x: 0, y: 0, z: 0 }
    }

    pub open spec fn plus(self, other: Point) -> Point {
        Point { x: self.x + other.x, y: self.y + other.y, z: self.z + other.z }
    }

    pub open spec fn minus(self, other: Point) -> Point {
        Point { x: self.x - other.x, y: self.y - other.y, z: self.z - other.z }
    }

    /// The vector times `num / den`, each component rounded toward zero.
    pub open spec fn ratio(self, num: int, den: int) -> Point {
        Point {
            x: trunc_div(self.x * num, den),
            y: trunc_div(self.y * num, den),
            z: trunc_div(self.z * num, den),
        }
    }

    /// The squared Euclidean length.
    pub open spec fn norm_sq(self) -> int {
        self.x * self.x + self.y * self.y + self.z * self.z
    }

    /// Every component is at most `limit` in magnitude.
    pub open spec fn within(self, limit: int) -> bool {
        abs(self.x) <= limit && abs(self.y) <= limit && abs(self.z) <= limit
    }

    /// Every component can be stored in a 64-bit signed integer.
    pub open spec fn fits(self) -> bool {
        &&& i64::MIN <= self.x <= i64::MAX
        &&& i64::MIN <= self.y <= i64::MAX
        &&& i64::MIN <= self.z <= i64::MAX
    }

    /// The length of the vector in units of `1 / FINE`, rounded up.
    pub open spec fn fine_length(self) -> int {
        ceil_sqrt((self.norm_sq() * FINE * FINE) as nat) as int
    }

    /// The vector rescaled to length `target`: each component is multiplied by
    /// `target` and divided by the length, rounding toward zero.
    pub open spec fn resized(self, target: int) -> Point {
        Point {
            x: trunc_div(self.x * target * FINE, self.fine_length()),
            y: trunc_div(self.y * target * FINE, self.fine_length()),
            z: trunc_div(self.z * target * FINE, self.fine_length()),
        }
    }

    /// The vector with its length capped at `max`, direction kept.
    pub open spec fn capped(self, max: int) -> Point {
        if self.norm_sq() > max * max {
            self.resized(max)
        } else {
            self
        }
    }
}

/// A vector of three fixed-point components.
#[derive(Clone, Copy, PartialEq, Eq, Structural, Debug)]
pub struct Vector {
    pub x: i64,
    pub y: i64,
    pub z: i64,
}

impl View for Vector {
    type V = Point;

    open spec fn view(&self) -> Point {
        Point { x: self.x as int, y: self.y as int, z: self.z as int }
    }
}

impl Vector {
    pub fn new(x: i64, y: i64, z: i64) -> (v: Vector)
        ensures
            v == (Vector { x, y, z }),
    {
        Vector { x, y, z }
    }

    pub fn zero() -> (v: Vector)
        ensures
            v@ == Point::zero(),
    {
        Vector { x: 0, y: 0, z: 0 }
    }

    /// Component-wise sum.
    pub fn plus(self, other: Vector) -> (r: Vector)
        requires
            self@.plus(other@).fits(),
        ensures
            r@ == self@.plus(other@),
    {
        Vector { x: self.x + other.x, y: self.y + other.y, z: self.z + other.z }
    }

    /// Component-wise difference.
    pub fn minus(self, other: Vector) -> (r: Vector)
        requires
            self@.minus(other@).fits(),
        ensures
            r@ == self@.minus(other@),
    {
        Vector { x: self.x - other.x, y: self.y - other.y, z: self.z - other.z }
    }

    /// The vector times `num / den`, rounded toward zero.
    pub fn ratio(self, num: i64, den: i64) -> (r: Vector)
        requires
            den > 0,
            self@.ratio(num as int, den as int).fits(),
        ensures
            r@ == self@.ratio(num as int, den as int),
    {
        Vector {
            x: ratio_component(self.x, num, den),
            y: ratio_component(self.y, num, den),
            z: ratio_component(self.z, num, den),
        }
    }

    /// The squared length.
    pub fn norm_sq(self) -> (n: u128)
        requires
            self@.within(REACH as int),
        ensures
            n == self@.norm_sq(),
            n <= 3 * (REACH * REACH),
    {
        proof {
            lemma_norm_sq_bound(self@, REACH as int);
        }
        let xx: u128 = square(self.x);
        let yy: u128 = square(self.y);
        let zz: u128 = square(self.z);
        xx + yy + zz
    }

    /// Whether `other` lies closer to `self` than `radius`.
    pub fn near(self, other: Vector, radius: i64) -> (b: bool)
        requires
            self@.minus(other@).within(REACH as int),
            0 <= radius <= REACH,
        ensures
            b == (self@.minus(other@).norm_sq() < radius * radius),
    {
        let d = self.minus(other);
        d.norm_sq() < square(radius)
    }

    /// The vector rescaled to length `target`.
    pub fn resized(self, target: i64) -> (r: Vector)
        requires
            self@.within(REACH as int),
            self@.norm_sq() > 0,
            0 <= target <= LENGTH_LIMIT,
        ensures
            r@ == self@.resized(target as int),
            r@.norm_sq() <= target * target,
            r@.within(target as int),
    {
        let n: u128 = self.norm_sq();
        assert(n * (FINE * FINE) <= SQRT_LIMIT && n * (FINE * FINE) == n * FINE
            * FINE) by (nonlinear_arith)
            requires
                n <= 3 * (REACH * REACH),
                REACH == 0x4000_0000_0000,
                FINE == 65_536,
                SQRT_LIMIT == 0x4000_0000_0000_0000_0000_0000_0000_0000,
        ;
        let len: u128 = sqrt_up(n * 4_294_967_296);
        proof {
            lemma_fine_length(self@);
            lemma_resized_within(self@, target as int);
            lemma_resized_norm(self@, target as int);
        }
        let d: i128 = len as i128;
        Vector {
            x: resized_component(self.x, target, d),
            y: resized_component(self.y, target, d),
            z: resized_component(self.z, target, d),
        }
    }

    /// The vector with its length capped at `max`, direction kept.
    pub fn capped(self, max: i64) -> (r: Vector)
        requires
            self@.within(REACH as int),
            0 <= max <= LENGTH_LIMIT,
        ensures
            r@ == self@.capped(max as int),
            r@.norm_sq() <= max * max,
    {
        proof {
            lemma_capped_norm(self@, max as int);
        }
        if self.norm_sq() > square(max) {
            self.resized(max)
        } else {
            self
        }
    }
}

fn square(a: i64) -> (s: u128)
    ensures
        s == a * a,
{
    let w: i128 = a as i128;
    assert(0 <= w * w <= 0x8000_0000_0000_0000 * 0x8000_0000_0000_0000) by (nonlinear_arith)
        requires
            -0x8000_0000_0000_0000 <= w <= 0x8000_0000_0000_0000,
    ;
    (w * w) as u128
}

fn ratio_component(a: i64, num: i64, den: i64) -> (r: i64)
    requires
        den > 0,
        i64::MIN <= trunc_div(a * num, den as int) <= i64::MAX,
    ensures
        r == trunc_div(a * num, den as int),
{
    let wa: i128 = a as i128;
    let wn: i128 = num as i128;
    assert(-0x8000_0000_0000_0000 * 0x8000_0000_0000_0000 <= wa * wn <= 0x8000_0000_0000_0000
        * 0x8000_0000_0000_0000) by (nonlinear_arith)
        requires
            -0x8000_0000_0000_0000 <= wa <= 0x8000_0000_0000_0000,
            -0x8000_0000_0000_0000 <= wn <= 0x8000_0000_0000_0000,
    ;
    let q: i128 = div_toward_zero(wa * wn, den as i128);
    q as i64
}

fn resized_component(a: i64, target: i64, len: i128) -> (r: i64)
    requires
        -REACH <= a <= REACH,
        0 <= target <= LENGTH_LIMIT,
        len > 0,
        abs(trunc_div(a * target * FINE, len as int)) <= target,
    ensures
        r == trunc_div(a * target * FINE, len as int),
{
    let wa: i128 = a as i128;
    let wt: i128 = target as i128;
    assert(-0x4000_0000_0000 * 0x80_0000 <= wa * wt <= 0x4000_0000_0000 * 0x80_0000)
        by (nonlinear_arith)
        requires
            -0x4000_0000_0000 <= wa <= 0x4000_0000_0000,
            0 <= wt <= 0x80_0000,
    ;
    let q: i128 = div_toward_zero(wa * wt * 65_536, len);
    q as i64
}

/// A component of a vector is no longer than the vector.
pub proof fn lemma_component_bound(p: Point, m: int)
    requires
        m >= 0,
        p.norm_sq() <= m * m,
    ensures
        p.within(m),
{
    assert(abs(p.x) <= m && abs(p.y) <= m && abs(p.z) <= m) by (nonlinear_arith)
        requires
            m >= 0,
            p.x * p.x + p.y * p.y + p.z * p.z <= m * m,
    ;
}

/// Squared lengths of vectors within `limit` are at most three squared limits.
pub proof fn lemma_norm_sq_bound(p: Point, limit: int)
    requires
        p.within(limit),
    ensures
        0 <= p.norm_sq() <= 3 * (limit * limit),
{
    assert(0 <= p.x * p.x <= limit * limit) by (nonlinear_arith)
        requires
            -limit <= p.x <= limit,
    ;
    assert(0 <= p.y * p.y <= limit * limit) by (nonlinear_arith)
        requires
            -limit <= p.y <= limit,
    ;
    assert(0 <= p.z * p.z <= limit * limit) by (nonlinear_arith)
        requires
            -limit <= p.z <= limit,
    ;
}

/// The refined length of a non-zero vector is positive and reaches the
/// refined magnitude of every component.
pub proof fn lemma_fine_length(p: Point)
    requires
        p.norm_sq() > 0,
    ensures
        p.fine_length() > 0,
        p.fine_length() * p.fine_length() >= p.norm_sq() * FINE * FINE,
        abs(p.x) * FINE <= p.fine_length(),
        abs(p.y) * FINE <= p.fine_length(),
        abs(p.z) * FINE <= p.fine_length(),
{
    let n = p.norm_sq();
    let m = n * FINE * FINE;
    assert(m > 0) by (nonlinear_arith)
        requires
            n > 0,
            m == n * FINE * FINE,
            FINE == 65_536,
    ;
    lemma_ceil_sqrt_exists(m as nat);
    let len = p.fine_length();
    assert(is_ceil_sqrt(m as nat, len as nat));
    assert(len * len >= m);
    assert(len > 0) by (nonlinear_arith)
        requires
            len * len >= m,
            m > 0,
            len >= 0,
    ;
    lemma_fine_component(p.x, p.y, p.z, len);
    lemma_fine_component(p.y, p.x, p.z, len);
    lemma_fine_component(p.z, p.x, p.y, len);
}

proof fn lemma_fine_component(a: int, b: int, c: int, len: int)
    requires
        len >= 0,
        len * len >= (a * a + b * b + c * c) * FINE * FINE,
    ensures
        abs(a) * FINE <= len,
{
    let k = abs(a) * FINE;
    let m = abs(a);
    assert(m * m == a * a) by (nonlinear_arith)
        requires
            m == a || m == -a,
    ;
    assert(k * k <= (a * a + b * b + c * c) * FINE * FINE) by (nonlinear_arith)
        requires
            k == m * FINE,
            m * m == a * a,
    ;
    assert(k <= len) by (nonlinear_arith)
        requires
            k * k <= len * len,
            len >= 0,
    ;
}

/// A resized vector has components no larger than the target.
pub proof fn lemma_resized_within(p: Point, target: int)
    requires
        p.norm_sq() > 0,
        target >= 0,
    ensures
        p.resized(target).within(target),
{
    lemma_fine_length(p);
    let len = p.fine_length();
    lemma_resized_component(p.x, target, len);
    lemma_resized_component(p.y, target, len);
    lemma_resized_component(p.z, target, len);
}

proof fn lemma_resized_component(a: int, target: int, len: int)
    requires
        len > 0,
        target >= 0,
        abs(a) * FINE <= len,
    ensures
        abs(trunc_div(a * target * FINE, len)) <= target,
{
    assert(abs(a * target * FINE) <= target * len) by (nonlinear_arith)
        requires
            target >= 0,
            abs(a) * FINE <= len,
            FINE == 65_536,
    ;
    lemma_trunc_div_le(a * target * FINE, len, target);
}

/// A resized vector is no longer than the target.
pub proof fn lemma_resized_norm(p: Point, target: int)
    requires
        p.norm_sq() > 0,
        target >= 0,
    ensures
        p.resized(target).norm_sq() <= target * target,
{
    lemma_fine_length(p);
    let len = p.fine_length();
    let r = p.resized(target);
    let s = target * FINE;
    lemma_resized_square(p.x, s, len);
    lemma_resized_square(p.y, s, len);
    lemma_resized_square(p.z, s, len);
    assert(p.x * target * FINE == p.x * s && p.y * target * FINE == p.y * s && p.z * target
        * FINE == p.z * s) by (nonlinear_arith)
        requires
            s == target * FINE,
    ;
    let n = p.norm_sq();
    let q = r.norm_sq();
    assert(q * (len * len) <= n * (s * s)) by (nonlinear_arith)
        requires
            q == r.x * r.x + r.y * r.y + r.z * r.z,
            n == p.x * p.x + p.y * p.y + p.z * p.z,
            r.x * r.x * (len * len) <= p.x * p.x * (s * s),
            r.y * r.y * (len * len) <= p.y * p.y * (s * s),
            r.z * r.z * (len * len) <= p.z * p.z * (s * s),
    ;
    assert(n * (s * s) <= (len * len) * (target * target)) by (nonlinear_arith)
        requires
            len * len >= n * FINE * FINE,
            s == target * FINE,
            target >= 0,
    ;
    assert(q <= target * target) by (nonlinear_arith)
        requires
            q * (len * len) <= (len * len) * (target * target),
            len > 0,
    ;
}

proof fn lemma_resized_square(a: int, s: int, len: int)
    requires
        len > 0,
    ensures
        trunc_div(a * s, len) * trunc_div(a * s, len) * (len * len) <= a * a * (s * s),
{
    let t = a * s;
    let r = trunc_div(t, len);
    lemma_trunc_div_bounds(t, len);
    let u = r * len;
    assert(abs(u) <= abs(t));
    assert(u * u <= t * t) by (nonlinear_arith)
        requires
            abs(u) <= abs(t),
    ;
    assert(r * r * (len * len) == u * u) by (nonlinear_arith)
        requires
            u == r * len,
    ;
    assert(t * t == a * a * (s * s)) by (nonlinear_arith)
        requires
            t == a * s,
    ;
}

/// A capped vector is no longer than the cap.
pub proof fn lemma_capped_norm(p: Point, max: int)
    requires
        max >= 0,
    ensures
        p.capped(max).norm_sq() <= max * max,
{
    if p.norm_sq() > max * max {
        assert(max * max >= 0) by (nonlinear_arith);
        lemma_resized_norm(p, max);
    }
}

/// Capping never turns a vector round: no part of the capped vector has the
/// opposite sign of the part it came from, and none is larger.
pub proof fn law_capped_direction(p: Point, max: int)
    requires
        max >= 0,
    ensures
        p.x >= 0 ==> 0 <= p.capped(max).x <= p.x,
        p.x <= 0 ==> p.x <= p.capped(max).x <= 0,
        p.y >= 0 ==> 0 <= p.capped(max).y <= p.y,
        p.y <= 0 ==> p.y <= p.capped(max).y <= 0,
        p.z >= 0 ==> 0 <= p.capped(max).z <= p.z,
        p.z <= 0 ==> p.z <= p.capped(max).z <= 0,
{
    if p.norm_sq() > max * max {
        assert(max * max >= 0) by (nonlinear_arith);
        lemma_fine_length(p);
        lemma_resized_norm(p, max);
        let len = p.fine_length();
        // the cap is shorter than the vector, so its refinement is below the
        // refined length
        assert(max * FINE <= len) by (nonlinear_arith)
            requires
                len * len >= p.norm_sq() * FINE * FINE,
                p.norm_sq() > max * max,
                max >= 0,
                len > 0,
                FINE > 0,
        ;
        lemma_capped_part(p.x, max, len);
        lemma_capped_part(p.y, max, len);
        lemma_capped_part(p.z, max, len);
    }
}

proof fn lemma_capped_part(a: int, max: int, len: int)
    requires
        len > 0,
        0 <= max * FINE <= len,
    ensures
        a >= 0 ==> 0 <= trunc_div(a * max * FINE, len) <= a,
        a <= 0 ==> a <= trunc_div(a * max * FINE, len) <= 0,
{
    let t = a * max * FINE;
    let m = max * FINE;
    assert(t == a * m) by (nonlinear_arith)
        requires
            t == a * max * FINE,
            m == max * FINE,
    ;
    assert(abs(t) <= abs(a) * len && (a >= 0 ==> t >= 0) && (a <= 0 ==> t <= 0))
        by (nonlinear_arith)
        requires
            t == a * m,
            0 <= m <= len,
    ;
    lemma_trunc_div_bounds(t, len);
    lemma_trunc_div_le(t, len, abs(a));
}

/// Rounding a quotient toward zero loses less than one divisor: the square
/// of the rounded quotient, scaled back, is short of the square of the
/// dividend by at most two dividends times the divisor.
proof fn lemma_rounded_square(v: int, s: int, len: int)
    requires
        len > 0,
        s >= 0,
    ensures
        trunc_div(v * s, len) * trunc_div(v * s, len) * (len * len) >= v * v * (s * s) - 2 * (abs(
            v,
        ) * s * len),
{
    let a = v * s;
    let q = trunc_div(a, len);
    lemma_trunc_div_bounds(a, len);
    let u = q * len;
    let m = abs(a);
    assert(u * u >= a * a - 2 * (m * len)) by (nonlinear_arith)
        requires
            (a >= 0 && 0 <= u <= a && a - u < len && m == a) || (a <= 0 && a <= u <= 0 && u - a
                < len && m == -a),
            len > 0,
    ;
    assert(m == abs(v) * s) by (nonlinear_arith)
        requires
            a == v * s,
            s >= 0,
            m == abs(a),
    ;
    assert(m * len == abs(v) * s * len) by (nonlinear_arith)
        requires
            m == abs(v) * s,
    ;
    assert(a * a == v * v * (s * s)) by (nonlinear_arith)
        requires
            a == v * s,
    ;
    assert(q * q * (len * len) == u * u) by (nonlinear_arith)
        requires
            u == q * len,
    ;
}

/// The three parts of a vector add up to less than seven quarters of its
/// length.
proof fn lemma_parts_sum(p: Point, len: int)
    requires
        len >= 0,
        len * len >= p.norm_sq() * FINE * FINE,
    ensures
        4 * ((abs(p.x) + abs(p.y) + abs(p.z)) * FINE) <= 7 * len,
{
    let a = abs(p.x);
    let b = abs(p.y);
    let c = abs(p.z);
    let n = p.norm_sq();
    assert(a * a == p.x * p.x && b * b == p.y * p.y && c * c == p.z * p.z) by (nonlinear_arith)
        requires
            a == p.x || a == -p.x,
            b == p.y || b == -p.y,
            c == p.z || c == -p.z,
    ;
    let t = a + b + c;
    assert(t * t <= 3 * n) by (nonlinear_arith)
        requires
            t == a + b + c,
            n == a * a + b * b + c * c,
    ;
    let w = 4 * (t * FINE);
    assert(w * w <= 48 * (len * len)) by (nonlinear_arith)
        requires
            w == 4 * (t * FINE),
            t * t <= 3 * n,
            len * len >= n * FINE * FINE,
    ;
    assert(w <= 7 * len) by (nonlinear_arith)
        requires
            w * w <= 48 * (len * len),
            len >= 0,
    ;
}

/// A resized vector is nearly as long as the target: it falls short of it
/// by no more than `slack`, for any slack that the refinement of lengths
/// allows for that target.
pub proof fn lemma_resized_reach(p: Point, target: int, slack: int)
    requires
        p.norm_sq() > 0,
        0 <= slack <= target,
        FINE * ((8 * slack - 14) * target - 4 * (slack * slack)) >= 8 * (target * target),
    ensures
        p.resized(target).norm_sq() >= (target - slack) * (target - slack),
{
    lemma_fine_length(p);
    let len = p.fine_length();
    let n = p.norm_sq();
    let r = p.resized(target);
    let s = target * FINE;
    let q = r.norm_sq();
    assert(s >= 0) by (nonlinear_arith)
        requires
            s == target * FINE,
            target >= 0,
    ;
    lemma_rounded_square(p.x, s, len);
    lemma_rounded_square(p.y, s, len);
    lemma_rounded_square(p.z, s, len);
    assert(p.x * target * FINE == p.x * s && p.y * target * FINE == p.y * s && p.z * target
        * FINE == p.z * s) by (nonlinear_arith)
        requires
            s == target * FINE,
    ;
    let t = abs(p.x) + abs(p.y) + abs(p.z);
    let ll = len * len;
    let ss = s * s;
    let got = q * ll;
    let full = n * ss;
    let lost = t * s * len;
    assert(got == r.x * r.x * ll + r.y * r.y * ll + r.z * r.z * ll) by (nonlinear_arith)
        requires
            got == q * ll,
            q == r.x * r.x + r.y * r.y + r.z * r.z,
    ;
    assert(full == p.x * p.x * ss + p.y * p.y * ss + p.z * p.z * ss) by (nonlinear_arith)
        requires
            full == n * ss,
            n == p.x * p.x + p.y * p.y + p.z * p.z,
    ;
    assert(lost == abs(p.x) * s * len + abs(p.y) * s * len + abs(p.z) * s * len)
        by (nonlinear_arith)
        requires
            lost == t * s * len,
            t == abs(p.x) + abs(p.y) + abs(p.z),
    ;
    assert(got >= full - 2 * lost);
    lemma_parts_sum(p, len);
    let wide = target * ll;
    assert(8 * lost <= 14 * wide) by (nonlinear_arith)
        requires
            lost == t * s * len,
            wide == target * (len * len),
            4 * (t * FINE) <= 7 * len,
            s == target * FINE,
            target >= 0,
            len > 0,
    ;
    // the refined length is the least whose square reaches the refined norm
    lemma_ceil_sqrt_exists((n * FINE * FINE) as nat);
    assert(is_ceil_sqrt((n * FINE * FINE) as nat, len as nat));
    assert((len - 1) * (len - 1) < n * FINE * FINE);
    let near = (target * target) * ((len - 1) * (len - 1));
    assert(full >= near) by (nonlinear_arith)
        requires
            full == n * (s * s),
            near == (target * target) * ((len - 1) * (len - 1)),
            (len - 1) * (len - 1) < n * FINE * FINE,
            s == target * FINE,
    ;
    // some part is not zero, so the refined length is at least one refinement
    assert(p.x != 0 || p.y != 0 || p.z != 0) by (nonlinear_arith)
        requires
            p.x * p.x + p.y * p.y + p.z * p.z > 0,
    ;
    assert(len >= FINE);
    let d = target - slack;
    let want = (d * d) * ll;
    assert(4 * near - 14 * wide >= 4 * want) by (nonlinear_arith)
        requires
            near == (target * target) * ((len - 1) * (len - 1)),
            wide == target * (len * len),
            want == (d * d) * (len * len),
            d == target - slack,
            0 <= slack <= target,
            len >= FINE,
            FINE > 0,
            FINE * ((8 * slack - 14) * target - 4 * (slack * slack)) >= 8 * (target * target),
    ;
    assert(got >= want);
    assert(q >= d * d) by (nonlinear_arith)
        requires
            got == q * ll,
            want == (d * d) * ll,
            got >= want,
            ll == len * len,
            len > 0,
    ;
}

} // verus!
