use crate::arith::{
    div_trunc, div_trunc_i128, gcd, gcd_u64, isqrt, isqrt_u128, lemma_div_trunc_bounds,
    lemma_div_trunc_neg, lemma_isqrt_ge,
};
use vstd::prelude::*;

verus! {

pub open spec fn abs_i(a: int) -> int {
    if a >= 0 { a } else { -a }
}

/// The primitive integer vector of the direction of `d`: both coordinates
/// divided by their greatest common divisor.
pub open spec fn primitive(d: Vec2) -> Vec2 {
    let g = gcd(abs_i(d.x as int) as nat, abs_i(d.y as int) as nat) as int;
    Vec2 { x: div_trunc(d.x as int, g) as i64, y: div_trunc(d.y as int, g) as i64 }
}

/// The share `|c| * len / sqrt(n)` of a coordinate `c` of a direction with
/// squared length `n`, rounded down, with the sign of `c`.
pub open spec fn scaled_coord(c: int, len: int, n: int) -> int {
    let m = isqrt(((c * len) * (c * len) / n) as nat) as int;
    if c >= 0 {
        m
    } else {
        -m
    }
}

/// `d` scaled to length `len`: each coordinate of the exact vector
/// `d * len / |d|`, rounded toward zero, so the result is never longer than
/// `len`.
pub open spec fn toward(d: Vec2, len: int) -> Vec2 {
    Vec2 {
        x: scaled_coord(d.x as int, len, dot(d, d)) as i64,
        y: scaled_coord(d.y as int, len, dot(d, d)) as i64,
    }
}

/// A scaled coordinate is the largest magnitude `m` with
/// `m^2 * n <= c^2 * len^2`, so at most `len`.
pub proof fn lemma_scaled_coord(c: int, len: int, n: int)
    requires
        c * c <= n,
        n > 0,
        len >= 0,
    ensures
        ({
            let m = abs_i(scaled_coord(c, len, n));
            &&& m * m * n <= c * c * (len * len)
            &&& c * c * (len * len) < (m + 1) * (m + 1) * n
            &&& m <= len
        }),
        c >= 0 ==> scaled_coord(c, len, n) >= 0,
        c <= 0 ==> scaled_coord(c, len, n) <= 0,
        c == 0 ==> scaled_coord(c, len, n) == 0,
{
    let big = (c * len) * (c * len);
    lemma_sq_nonneg(c * len);
    let q = big / n;
    vstd::arithmetic::div_mod::lemma_fundamental_div_mod(big, n);
    let r = big % n;
    assert(0 <= q) by (nonlinear_arith)
        requires
            big == n * q + r,
            0 <= r < n,
            big >= 0,
    ;
    let m = isqrt(q as nat) as int;
    crate::arith::lemma_isqrt_is_root(q as nat);
    assert(big == c * c * (len * len)) by (nonlinear_arith)
        requires
            big == (c * len) * (c * len),
    ;
    assert(m * m * n <= big) by (nonlinear_arith)
        requires
            m * m <= q,
            big == n * q + r,
            0 <= r,
            n > 0,
    ;
    assert(big < (m + 1) * (m + 1) * n) by (nonlinear_arith)
        requires
            q < (m + 1) * (m + 1),
            big == n * q + r,
            r < n,
            n > 0,
    ;
    assert(m * m <= len * len) by (nonlinear_arith)
        requires
            m * m * n <= c * c * (len * len),
            c * c <= n,
            n > 0,
            len >= 0,
    ;
    assert(m <= len) by (nonlinear_arith)
        requires
            m * m <= len * len,
            m >= 0,
            len >= 0,
    ;
    if c == 0 {
        assert(m == 0) by (nonlinear_arith)
            requires
                m * m * n <= c * c * (len * len),
                c == 0,
                n > 0,
                m >= 0,
        ;
    }
}

/// Scaling a vector to a length commutes with turning it around.
pub proof fn lemma_toward_neg(d: Vec2, len: int)
    requires
        d.small(),
        !(d.x == 0 && d.y == 0),
        0 <= len <= COORD_LIMIT,
    ensures
        toward(Vec2 { x: (-d.x) as i64, y: (-d.y) as i64 }, len) == (Vec2 { x: (-toward(d, len).x) as i64, y: (-toward(d, len).y) as i64 }),
{
    let e = Vec2 { x: (-d.x) as i64, y: (-d.y) as i64 };
    assert(dot(e, e) == dot(d, d)) by (nonlinear_arith)
        requires
            e.x == -d.x,
            e.y == -d.y,
    ;
    assert((e.x * len) * (e.x * len) == (d.x * len) * (d.x * len)) by (nonlinear_arith)
        requires
            e.x == -d.x,
    ;
    assert((e.y * len) * (e.y * len) == (d.y * len) * (d.y * len)) by (nonlinear_arith)
        requires
            e.y == -d.y,
    ;
    lemma_toward_small(d, len);
    lemma_dir_len_pos(d);
    lemma_sq_nonneg(d.x as int);
    lemma_sq_nonneg(d.y as int);
    lemma_scaled_coord(d.x as int, len, dot(d, d));
    lemma_scaled_coord(d.y as int, len, dot(d, d));
}

/// The primitive direction commutes with turning around.
pub proof fn lemma_primitive_neg(d: Vec2)
    requires
        d.small(),
        !(d.x == 0 && d.y == 0),
    ensures
        primitive(Vec2 { x: (-d.x) as i64, y: (-d.y) as i64 }) == (Vec2 { x: (-primitive(d).x) as i64, y: (-primitive(d).y) as i64 }),
{
    let g = gcd(abs_i(d.x as int) as nat, abs_i(d.y as int) as nat) as int;
    lemma_gcd_pos(d);
    lemma_div_trunc_neg(d.x as int, g);
    lemma_div_trunc_neg(d.y as int, g);
}

/// A direction scaled to `len` is no longer than `len`, and neither is any
/// of its coordinates.
pub proof fn lemma_toward_small(d: Vec2, len: int)
    requires
        d.small(),
        !(d.x == 0 && d.y == 0),
        0 <= len <= COORD_LIMIT,
    ensures
        -len <= toward(d, len).x <= len,
        -len <= toward(d, len).y <= len,
        dot(toward(d, len), toward(d, len)) <= len * len,
        toward(d, len).x * toward(d, len).x * dot(d, d) <= d.x * d.x * (len * len),
        toward(d, len).y * toward(d, len).y * dot(d, d) <= d.y * d.y * (len * len),
{
    lemma_dir_len_pos(d);
    let n = dot(d, d);
    lemma_sq_nonneg(d.x as int);
    lemma_sq_nonneg(d.y as int);
    lemma_scaled_coord(d.x as int, len, n);
    lemma_scaled_coord(d.y as int, len, n);
    let mx = abs_i(scaled_coord(d.x as int, len, n));
    let my = abs_i(scaled_coord(d.y as int, len, n));
    let t = toward(d, len);
    assert(t.x * t.x == mx * mx && t.y * t.y == my * my) by (nonlinear_arith)
        requires
            t.x == mx || t.x == -mx,
            t.y == my || t.y == -my,
    ;
    assert((mx * mx + my * my) * n <= n * (len * len)) by (nonlinear_arith)
        requires
            mx * mx * n <= d.x * d.x * (len * len),
            my * my * n <= d.y * d.y * (len * len),
            n == d.x * d.x + d.y * d.y,
    ;
    assert(mx * mx + my * my <= len * len) by (nonlinear_arith)
        requires
            (mx * mx + my * my) * n <= n * (len * len),
            n > 0,
    ;
}

/// The primitive direction of a small nonzero vector is small and nonzero.
pub proof fn lemma_primitive_small(d: Vec2)
    requires
        d.small(),
        !(d.x == 0 && d.y == 0),
    ensures
        primitive(d).small(),
        !(primitive(d).x == 0 && primitive(d).y == 0),
{
    let g = gcd(abs_i(d.x as int) as nat, abs_i(d.y as int) as nat) as int;
    lemma_gcd_pos(d);
    lemma_div_trunc_bounds(d.x as int, g, abs_i(d.x as int));
    lemma_div_trunc_bounds(d.y as int, g, abs_i(d.y as int));
    if abs_i(d.x as int) >= abs_i(d.y as int) {
        lemma_quotient_at_least_one(abs_i(d.x as int), g);
    } else {
        lemma_quotient_at_least_one(abs_i(d.y as int), g);
    }
}

proof fn lemma_gcd_pos(d: Vec2)
    requires
        !(d.x == 0 && d.y == 0),
    ensures
        gcd(abs_i(d.x as int) as nat, abs_i(d.y as int) as nat) > 0,
        gcd(abs_i(d.x as int) as nat, abs_i(d.y as int) as nat) <= if abs_i(d.x as int) >= abs_i(
            d.y as int,
        ) {
            abs_i(d.x as int)
        } else {
            abs_i(d.y as int)
        },
{
    crate::arith::lemma_gcd_bounds(abs_i(d.x as int) as nat, abs_i(d.y as int) as nat);
}

proof fn lemma_dir_len_pos(d: Vec2)
    requires
        d.small(),
        !(d.x == 0 && d.y == 0),
    ensures
        isqrt(dot(d, d) as nat) >= abs_i(d.x as int),
        isqrt(dot(d, d) as nat) >= abs_i(d.y as int),
        isqrt(dot(d, d) as nat) >= 1,
        dot(d, d) >= 1,
{
    lemma_sq_nonneg(d.x as int);
    lemma_sq_nonneg(d.y as int);
    assert(abs_i(d.x as int) * abs_i(d.x as int) == d.x * d.x) by (nonlinear_arith);
    assert(abs_i(d.y as int) * abs_i(d.y as int) == d.y * d.y) by (nonlinear_arith);
    if d.x != 0 {
        assert(d.x * d.x >= 1) by (nonlinear_arith)
            requires
                d.x != 0,
        ;
    } else {
        assert(d.y * d.y >= 1) by (nonlinear_arith)
            requires
                d.y != 0,
        ;
    }
    lemma_isqrt_ge(dot(d, d) as nat, abs_i(d.x as int) as nat);
    lemma_isqrt_ge(dot(d, d) as nat, abs_i(d.y as int) as nat);
    lemma_isqrt_ge(dot(d, d) as nat, 1);
    assert(1nat * 1nat == 1) by (nonlinear_arith);
}

proof fn lemma_quotient_at_least_one(a: int, g: int)
    requires
        a >= g > 0,
    ensures
        a / g >= 1,
{
    vstd::arithmetic::div_mod::lemma_div_is_ordered(g, a, g);
    vstd::arithmetic::div_mod::lemma_div_by_self(g);
}

/// Largest absolute value of a coordinate of a shape.
pub const COORD_LIMIT: i64 = 4194304;

/// Largest absolute value of a coordinate of a difference of two points.
pub const DIFF_LIMIT: i64 = 16777216;

/// A point or a vector on the integer grid.
#[derive(Clone, Copy, Debug, PartialEq, Eq, Structural)]
pub struct Vec2 {
    pub x: i64,
    pub y: i64,
}

pub open spec fn coord_ok(c: int) -> bool {
    -COORD_LIMIT <= c <= COORD_LIMIT
}

pub open spec fn diff_ok(c: int) -> bool {
    -DIFF_LIMIT <= c <= DIFF_LIMIT
}

/// Dot product.
pub open spec fn dot(a: Vec2, b: Vec2) -> int {
    a.x * b.x + a.y * b.y
}

/// Perp-dot product, the 2D cross product.
pub open spec fn perp_dot(a: Vec2, b: Vec2) -> int {
    a.x * b.y - a.y * b.x
}

/// `b - a`, over the integers.
pub open spec fn minus(b: Vec2, a: Vec2) -> Vec2 {
    Vec2 { x: (b.x - a.x) as i64, y: (b.y - a.y) as i64 }
}

/// Squared distance between two points.
pub open spec fn dist_sq(a: Vec2, b: Vec2) -> int {
    (b.x - a.x) * (b.x - a.x) + (b.y - a.y) * (b.y - a.y)
}

pub proof fn lemma_mul_bound(a: int, b: int, m: int, n: int)
    requires
        -m <= a <= m,
        -n <= b <= n,
    ensures
        -(m * n) <= a * b <= m * n,
{
    assert(-(m * n) <= a * b <= m * n) by (nonlinear_arith)
        requires
            -m <= a <= m,
            -n <= b <= n,
    ;
}

/// Swapping the operands of a perp-dot product flips its sign.
pub proof fn lemma_perp_dot_antisym(a: Vec2, b: Vec2)
    ensures
        perp_dot(b, a) == -perp_dot(a, b),
{
    assert(b.x * a.y == a.y * b.x) by (nonlinear_arith);
    assert(b.y * a.x == a.x * b.y) by (nonlinear_arith);
}

/// `(p + q)^2` expanded.
pub proof fn lemma_sq_sum(p: int, q: int)
    ensures
        (p + q) * (p + q) == p * p + 2 * (p * q) + q * q,
        (p - q) * (p - q) == p * p - 2 * (p * q) + q * q,
{
    assert((p + q) * (p + q) == p * p + 2 * (p * q) + q * q) by (nonlinear_arith);
    assert((p - q) * (p - q) == p * p - 2 * (p * q) + q * q) by (nonlinear_arith);
}

/// Regrouping a product of four factors.
pub proof fn lemma_mul4(a: int, b: int, c: int, d: int)
    ensures
        (a * b) * (c * d) == (a * c) * (b * d),
        (a * b) * (c * d) == (a * d) * (b * c),
{
    assert((a * b) * (c * d) == (a * c) * (b * d)) by (nonlinear_arith);
    assert((a * b) * (c * d) == (a * d) * (b * c)) by (nonlinear_arith);
}

pub proof fn lemma_sq_nonneg(a: int)
    ensures
        a * a >= 0,
{
    assert(a * a >= 0) by (nonlinear_arith);
}

impl Vec2 {
    /// Both coordinates lie within the shape range.
    pub open spec fn wf(self) -> bool {
        coord_ok(self.x as int) && coord_ok(self.y as int)
    }

    /// Both coordinates lie within twice the shape range: the range of
    /// points of contact.
    pub open spec fn near(self) -> bool {
        -2 * COORD_LIMIT <= self.x <= 2 * COORD_LIMIT && -2 * COORD_LIMIT <= self.y <= 2
            * COORD_LIMIT
    }

    /// Both coordinates lie within the range of differences of points.
    pub open spec fn small(self) -> bool {
        diff_ok(self.x as int) && diff_ok(self.y as int)
    }

    /// The primitive integer vector of this direction; the axis directions
    /// give the unit vectors.
    pub fn primitive(self) -> (r: Vec2)
        requires
            self.small(),
            !(self.x == 0 && self.y == 0),
        ensures
            r == primitive(self),
            r.small(),
            !(r.x == 0 && r.y == 0),
    {
        let ax: u64 = if self.x >= 0 { self.x as u64 } else { (-self.x) as u64 };
        let ay: u64 = if self.y >= 0 { self.y as u64 } else { (-self.y) as u64 };
        let g = gcd_u64(ax, ay);
        proof {
            lemma_gcd_pos(self);
            lemma_div_trunc_bounds(self.x as int, g as int, abs_i(self.x as int));
            lemma_div_trunc_bounds(self.y as int, g as int, abs_i(self.y as int));
            if abs_i(self.x as int) >= abs_i(self.y as int) {
                lemma_quotient_at_least_one(abs_i(self.x as int), g as int);
            } else {
                lemma_quotient_at_least_one(abs_i(self.y as int), g as int);
            }
        }
        let qx = div_trunc_i128(self.x as i128, g as i128);
        let qy = div_trunc_i128(self.y as i128, g as i128);
        Vec2 { x: qx as i64, y: qy as i64 }
    }

    /// This direction scaled to length `len`: each coordinate of the exact
    /// vector rounded toward zero, so never longer than `len`.
    pub fn toward(self, len: i64) -> (r: Vec2)
        requires
            self.small(),
            !(self.x == 0 && self.y == 0),
            0 <= len <= COORD_LIMIT,
        ensures
            r == toward(self, len as int),
            -len <= r.x <= len,
            -len <= r.y <= len,
            dot(r, r) <= len * len,
            r.x * r.x * dot(self, self) <= self.x * self.x * (len * len),
            self.x * self.x * (len * len) < (abs_i(r.x as int) + 1) * (abs_i(r.x as int) + 1)
                * dot(self, self),
            r.y * r.y * dot(self, self) <= self.y * self.y * (len * len),
            self.y * self.y * (len * len) < (abs_i(r.y as int) + 1) * (abs_i(r.y as int) + 1)
                * dot(self, self),
    {
        let n2 = self.dot(self);
        proof {
            lemma_dir_len_pos(self);
            lemma_toward_small(self, len as int);
            lemma_sq_nonneg(self.x as int);
            lemma_sq_nonneg(self.y as int);
            lemma_scaled_coord(self.x as int, len as int, n2 as int);
            lemma_scaled_coord(self.y as int, len as int, n2 as int);
        }
        let x = self.scaled(self.x, len, n2);
        let y = self.scaled(self.y, len, n2);
        Vec2 { x, y }
    }

    /// One coordinate of [`Vec2::toward`].
    fn scaled(self, c: i64, len: i64, n2: i64) -> (r: i64)
        requires
            -DIFF_LIMIT <= c <= DIFF_LIMIT,
            0 <= len <= COORD_LIMIT,
            c * c <= n2,
            0 < n2 <= 0x2_0000_0000_0000,
        ensures
            r == scaled_coord(c as int, len as int, n2 as int),
    {
        proof {
            lemma_mul_bound(c as int, len as int, DIFF_LIMIT as int, COORD_LIMIT as int);
            let cl = c * len;
            lemma_sq_nonneg(cl);
            lemma_mul_bound(cl, cl, DIFF_LIMIT * COORD_LIMIT, DIFF_LIMIT * COORD_LIMIT);
            let big = cl * cl;
            vstd::arithmetic::div_mod::lemma_fundamental_div_mod(big, n2 as int);
            let q = big / (n2 as int);
            let r = big % (n2 as int);
            assert(0 <= q <= big) by (nonlinear_arith)
                requires
                    big == n2 * q + r,
                    0 <= r < n2,
                    n2 >= 1,
                    big >= 0,
            ;
        }
        let cl = (c as i128) * (len as i128);
        let big = (cl * cl) as u128;
        let q = big / (n2 as u128);
        let m = isqrt_u128(q);
        if c >= 0 {
            m as i64
        } else {
            -(m as i64)
        }
    }

    /// Whether both coordinates lie within the shape range.
    pub fn is_valid(&self) -> (r: bool)
        ensures
            r == self.wf(),
    {
        -COORD_LIMIT <= self.x && self.x <= COORD_LIMIT && -COORD_LIMIT <= self.y && self.y
            <= COORD_LIMIT
    }

    pub fn new(x: i64, y: i64) -> (r: Vec2)
        ensures
            r.x == x,
            r.y == y,
    {
        Vec2 { x, y }
    }

    /// `self - other`.
    pub fn sub(self, other: Vec2) -> (r: Vec2)
        requires
            self.near(),
            other.near(),
        ensures
            r == minus(self, other),
            r.small(),
    {
        Vec2 { x: self.x - other.x, y: self.y - other.y }
    }

    /// The dot product of two small vectors.
    pub fn dot(self, other: Vec2) -> (r: i64)
        requires
            self.small(),
            other.small(),
        ensures
            r == dot(self, other),
            -0x2_0000_0000_0000 <= r <= 0x2_0000_0000_0000,
    {
        proof {
            lemma_mul_bound(self.x as int, other.x as int, DIFF_LIMIT as int, DIFF_LIMIT as int);
            lemma_mul_bound(self.y as int, other.y as int, DIFF_LIMIT as int, DIFF_LIMIT as int);
        }
        self.x * other.x + self.y * other.y
    }

    /// The perp-dot product of two small vectors.
    pub fn perp_dot(self, other: Vec2) -> (r: i64)
        requires
            self.small(),
            other.small(),
        ensures
            r == perp_dot(self, other),
            -0x2_0000_0000_0000 <= r <= 0x2_0000_0000_0000,
    {
        proof {
            lemma_mul_bound(self.x as int, other.y as int, DIFF_LIMIT as int, DIFF_LIMIT as int);
            lemma_mul_bound(self.y as int, other.x as int, DIFF_LIMIT as int, DIFF_LIMIT as int);
        }
        self.x * other.y - self.y * other.x
    }

    /// The squared distance between two points.
    pub fn distance_squared(self, other: Vec2) -> (r: i64)
        requires
            self.wf(),
            other.wf(),
        ensures
            r == dist_sq(self, other),
            0 <= r <= 0x20_0000_0000_0000,
    {
        let d = other.sub(self);
        proof {
            lemma_sq_nonneg(d.x as int);
            lemma_sq_nonneg(d.y as int);
        }
        d.dot(d)
    }
}

} // verus!
