//! Plane vectors on the fixed-point grid.

use vstd::prelude::*;
use crate::fixed::{
    floor_sqrt, isqrt, lemma_floor_sqrt, lemma_floor_sqrt_is, lemma_floor_sqrt_monotone,
    lemma_floor_sqrt_of_square, lemma_root_bound, lemma_square_bound, lemma_square_sign, magnitude,
};

verus! {

/// A point or a displacement of the plane, in grid steps.
pub struct Point {
    pub x: int,
    pub y: int,
}

impl Point {
    /// The sum of two displacements.
    pub open spec fn plus(self, other: Point) -> Point {
        Point { x: self.x + other.x, y: self.y + other.y }
    }

    /// The displacement that leads from `other` to `self`.
    pub open spec fn minus(self, other: Point) -> Point {
        Point { x: self.x - other.x, y: self.y - other.y }
    }

    /// The scalar product.
    pub open spec fn dot(self, other: Point) -> int {
        self.x * other.x + self.y * other.y
    }

    /// The vector turned by a quarter turn.
    pub open spec fn perp(self) -> Point {
        Point { x: -self.y, y: self.x }
    }

    /// The squared length.
    pub open spec fn norm_sq(self) -> nat {
        (self.x * self.x + self.y * self.y) as nat
    }

    /// Both coordinates lie within `limit` of zero.
    pub open spec fn within(self, limit: int) -> bool {
        -limit <= self.x <= limit && -limit <= self.y <= limit
    }
}

/// One coordinate of a vector stretched or shrunk to a given squared length.
///
/// For a vector with this coordinate `c` and the other coordinate `other`,
/// the exact value is `c * sqrt(len_sq) / sqrt(c * c + other * other)`. The
/// result is that real number rounded toward zero.
pub open spec fn scaled_part(c: int, other: int, len_sq: nat) -> int {
    let mag = floor_sqrt(((c * c) * len_sq / (c * c + other * other)) as nat);
    if c >= 0 {
        mag as int
    } else {
        -(mag as int)
    }
}

/// The vector that points as `r` does and whose squared length is `len_sq`,
/// each coordinate rounded toward zero. The zero vector has no direction and
/// stays zero.
pub open spec fn rescaled(r: Point, len_sq: nat) -> Point {
    if r.x == 0 && r.y == 0 {
        Point { x: 0, y: 0 }
    } else {
        Point { x: scaled_part(r.x, r.y, len_sq), y: scaled_part(r.y, r.x, len_sq) }
    }
}

/// Largest coordinate magnitude that `Vec2::rescaled` accepts.
pub const RESCALE_COMPONENT_LIMIT: i64 = 0x400_0000_0000;

/// Largest squared length that `Vec2::rescaled` accepts.
pub const RESCALE_LENGTH_SQ_LIMIT: u64 = 0x800_0000_0000;

/// A vector with integer coordinates, in grid steps.
#[derive(Clone, Copy, Debug, PartialEq, Eq, Structural)]
pub struct Vec2 {
    pub x: i64,
    pub y: i64,
}

impl View for Vec2 {
    type V = Point;

    open spec fn view(&self) -> Point {
        Point { x: self.x as int, y: self.y as int }
    }
}

/// Only the zero vector has length zero.
pub proof fn lemma_norm_sq_zero(d: Point)
    by (nonlinear_arith)
    ensures
        d.norm_sq() == 0 <==> (d.x == 0 && d.y == 0),
        d.norm_sq() == d.x * d.x + d.y * d.y,
{
}

/// The product of two sums of two squares is a sum of two squares: the
/// squared lengths of two vectors multiply to the square of their scalar
/// product plus the square of the area they span.
pub proof fn lemma_two_squares(a: Point, b: Point)
    ensures
        (a.x * a.x + a.y * a.y) * (b.x * b.x + b.y * b.y) == (a.x * b.x + a.y * b.y) * (a.x * b.x
            + a.y * b.y) + (a.x * b.y - a.y * b.x) * (a.x * b.y - a.y * b.x),
{
    let p = a.x * b.x;
    let q = a.y * b.y;
    let r = a.x * b.y;
    let u = a.y * b.x;
    let ax2 = a.x * a.x;
    let ay2 = a.y * a.y;
    let bx2 = b.x * b.x;
    let by2 = b.y * b.y;
    assert(ax2 * bx2 == p * p) by (nonlinear_arith)
        requires
            ax2 == a.x * a.x,
            bx2 == b.x * b.x,
            p == a.x * b.x,
    ;
    assert(ay2 * by2 == q * q) by (nonlinear_arith)
        requires
            ay2 == a.y * a.y,
            by2 == b.y * b.y,
            q == a.y * b.y,
    ;
    assert(ax2 * by2 == r * r) by (nonlinear_arith)
        requires
            ax2 == a.x * a.x,
            by2 == b.y * b.y,
            r == a.x * b.y,
    ;
    assert(ay2 * bx2 == u * u) by (nonlinear_arith)
        requires
            ay2 == a.y * a.y,
            bx2 == b.x * b.x,
            u == a.y * b.x,
    ;
    assert(p * q == r * u) by (nonlinear_arith)
        requires
            p == a.x * b.x,
            q == a.y * b.y,
            r == a.x * b.y,
            u == a.y * b.x,
    ;
    assert((ax2 + ay2) * (bx2 + by2) == ax2 * bx2 + ax2 * by2 + ay2 * bx2 + ay2 * by2)
        by (nonlinear_arith);
    assert((p + q) * (p + q) == p * p + 2 * (p * q) + q * q) by (nonlinear_arith);
    assert((r - u) * (r - u) == r * r - 2 * (r * u) + u * u) by (nonlinear_arith);
}

/// The scalar product of two vectors is bounded by their lengths.
pub proof fn lemma_dot_bound(d: Point, w: Point)
    ensures
        d.dot(w) * d.dot(w) <= d.norm_sq() * w.norm_sq(),
{
    lemma_square_sign(d.x);
    lemma_square_sign(d.y);
    lemma_square_sign(w.x);
    lemma_square_sign(w.y);
    let s = d.x * w.y - d.y * w.x;
    lemma_two_squares(d, w);
    lemma_square_sign(s);
}

/// The quotient that `scaled_part` takes the root of, and what bounds it.
pub proof fn lemma_scaled_quotient(c: int, other: int, len_sq: nat)
    requires
        c != 0 || other != 0,
    ensures
        c * c + other * other > 0,
        0 <= (c * c) * len_sq / (c * c + other * other) <= len_sq,
        ((c * c) * len_sq / (c * c + other * other)) * (c * c + other * other) <= (c * c)
            * len_sq,
        ((c * c) * len_sq / (c * c + other * other) + 1) * (c * c + other * other) > (c * c)
            * len_sq,
{
    lemma_square_sign(c);
    lemma_square_sign(other);
    let cc = c * c;
    let den = c * c + other * other;
    let num = cc * len_sq;
    assert(num >= 0) by (nonlinear_arith)
        requires
            num == cc * len_sq,
            cc >= 0,
            len_sq >= 0,
    ;
    assert(num <= den * len_sq) by (nonlinear_arith)
        requires
            num == cc * len_sq,
            0 <= cc <= den,
            len_sq >= 0,
    ;
    let q = num / den;
    assert(0 <= q && q * den <= num && (q + 1) * den > num && q <= len_sq)
        by (nonlinear_arith)
        requires
            q == num / den,
            den > 0,
            num >= 0,
            num <= den * len_sq,
    ;
}

/// The magnitude of a rescaled coordinate is at most the root of the length.
pub proof fn lemma_scaled_part_bound(c: int, other: int, len_sq: nat)
    requires
        c != 0 || other != 0,
    ensures
        magnitude(scaled_part(c, other, len_sq)) <= floor_sqrt(len_sq),
        c >= 0 ==> scaled_part(c, other, len_sq) >= 0,
        c <= 0 ==> scaled_part(c, other, len_sq) <= 0,
{
    lemma_scaled_quotient(c, other, len_sq);
    let q = ((c * c) * len_sq / (c * c + other * other)) as nat;
    lemma_floor_sqrt_monotone(q, len_sq);
    if c == 0 {
        assert((c * c) * len_sq == 0) by (nonlinear_arith)
            requires
                c == 0,
        ;
        assert(q == 0);
        assert((0nat + 1) * (0nat + 1) == 1) by (nonlinear_arith);
        lemma_floor_sqrt_is(0, 0);
    }
}

/// A vector stretched to at least its own length does not shrink in any
/// coordinate, and keeps each coordinate's sign.
pub proof fn lemma_scaled_part_grows(c: int, other: int, len_sq: nat)
    requires
        c != 0 || other != 0,
        c * c + other * other <= len_sq,
    ensures
        magnitude(scaled_part(c, other, len_sq)) >= magnitude(c),
{
    lemma_scaled_quotient(c, other, len_sq);
    lemma_square_sign(c);
    let cc = c * c;
    let den = c * c + other * other;
    let q = (cc * len_sq) / den;
    assert(q >= cc) by (nonlinear_arith)
        requires
            q == (cc * len_sq) / den,
            (q + 1) * den > cc * len_sq,
            den > 0,
            cc >= 0,
            den <= len_sq,
    ;
    let m = magnitude(c);
    lemma_floor_sqrt_of_square(m);
    lemma_floor_sqrt_monotone(m * m, q as nat);
}

/// A rescaled vector is no longer than asked, and one grid step more in each
/// coordinate would make it longer than asked.
pub proof fn lemma_rescaled_length(r: Point, len_sq: nat)
    ensures
        rescaled(r, len_sq).norm_sq() <= len_sq,
        (r.x != 0 || r.y != 0) ==> len_sq < (magnitude(rescaled(r, len_sq).x) + 1) * (magnitude(
            rescaled(r, len_sq).x,
        ) + 1) + (magnitude(rescaled(r, len_sq).y) + 1) * (magnitude(rescaled(r, len_sq).y) + 1),
{
    if r.x == 0 && r.y == 0 {
        assert(0int * 0int + 0int * 0int == 0) by (nonlinear_arith);
    } else {
        lemma_scaled_quotient(r.x, r.y, len_sq);
        lemma_scaled_quotient(r.y, r.x, len_sq);
        let den = r.x * r.x + r.y * r.y;
        let qx = ((r.x * r.x) * len_sq / den) as nat;
        let qy = ((r.y * r.y) * len_sq / den) as nat;
        assert(r.y * r.y + r.x * r.x == den);
        lemma_floor_sqrt(qx);
        lemma_floor_sqrt(qy);
        let mx = floor_sqrt(qx);
        let my = floor_sqrt(qy);
        let w = rescaled(r, len_sq);
        assert(magnitude(w.x) == mx);
        assert(magnitude(w.y) == my);
        lemma_square_sign(w.x);
        lemma_square_sign(w.y);
        assert(w.x * w.x == mx * mx);
        assert(w.y * w.y == my * my);
        let ax = r.x * r.x;
        let ay = r.y * r.y;
        assert(mx * mx + my * my <= len_sq) by (nonlinear_arith)
            requires
                mx * mx <= qx,
                my * my <= qy,
                qx * den <= ax * len_sq,
                qy * den <= ay * len_sq,
                ax + ay == den,
                den > 0,
        ;
        assert(len_sq < (mx + 1) * (mx + 1) + (my + 1) * (my + 1)) by (nonlinear_arith)
            requires
                qx < (mx + 1) * (mx + 1),
                qy < (my + 1) * (my + 1),
                (qx + 1) * den > ax * len_sq,
                (qy + 1) * den > ay * len_sq,
                ax + ay == den,
                den > 0,
        ;
    }
}

/// A vector rescaled to a squared length of at most `limit * limit` lies
/// within `limit` in each coordinate.
pub proof fn lemma_rescaled_within(r: Point, len_sq: nat, limit: int)
    requires
        limit >= 0,
        len_sq <= limit * limit,
    ensures
        rescaled(r, len_sq).within(limit),
{
    let w = rescaled(r, len_sq);
    lemma_rescaled_length(r, len_sq);
    lemma_square_sign(w.x);
    lemma_square_sign(w.y);
    lemma_root_bound(w.x, limit);
    lemma_root_bound(w.y, limit);
}

impl Vec2 {
    /// Both coordinates lie within `limit` of zero.
    pub open spec fn within(&self, limit: int) -> bool {
        self@.within(limit)
    }

    /// One coordinate of the rescaled vector.
    fn scaled_part(c: i64, other: i64, len_sq: u64) -> (r: i64)
        requires
            c != 0 || other != 0,
            -RESCALE_COMPONENT_LIMIT <= c <= RESCALE_COMPONENT_LIMIT,
            -RESCALE_COMPONENT_LIMIT <= other <= RESCALE_COMPONENT_LIMIT,
            len_sq <= RESCALE_LENGTH_SQ_LIMIT,
        ensures
            r == scaled_part(c as int, other as int, len_sq as nat),
    {
        proof {
            lemma_square_sign(c as int);
            lemma_square_sign(other as int);
            lemma_square_bound(c as int, RESCALE_COMPONENT_LIMIT as int);
            lemma_square_bound(other as int, RESCALE_COMPONENT_LIMIT as int);
            lemma_scaled_quotient(c as int, other as int, len_sq as nat);
            assert(0x400_0000_0000int * 0x400_0000_0000int == 0x10_0000_0000_0000_0000_0000int)
                by (nonlinear_arith);
        }
        let wide_c: i128 = c as i128;
        let wide_other: i128 = other as i128;
        let cc: u128 = (wide_c * wide_c) as u128;
        let oo: u128 = (wide_other * wide_other) as u128;
        assert(cc * len_sq <= 0x10_0000_0000_0000_0000_0000 * 0x800_0000_0000) by (nonlinear_arith)
            requires
                0 <= cc <= 0x10_0000_0000_0000_0000_0000,
                0 <= len_sq <= 0x800_0000_0000,
        ;
        let num: u128 = cc * (len_sq as u128);
        let den: u128 = cc + oo;
        let q: u128 = num / den;
        let mag: u64 = isqrt(q as u64);
        if c >= 0 {
            mag as i64
        } else {
            -(mag as i64)
        }
    }

    /// The vector that points as `self` does, with squared length `len_sq`.
    pub fn rescaled(&self, len_sq: u64) -> (r: Vec2)
        requires
            self.within(RESCALE_COMPONENT_LIMIT as int),
            len_sq <= RESCALE_LENGTH_SQ_LIMIT,
        ensures
            r@ == rescaled(self@, len_sq as nat),
    {
        if self.x == 0 && self.y == 0 {
            Vec2 { x: 0, y: 0 }
        } else {
            Vec2 {
                x: Vec2::scaled_part(self.x, self.y, len_sq),
                y: Vec2::scaled_part(self.y, self.x, len_sq),
            }
        }
    }
}

} // verus!
