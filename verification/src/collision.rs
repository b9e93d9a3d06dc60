//! Collisions between molecules.
//!
//! A molecule that overlaps another is pushed back along the line of centres
//! by half the overlap. It takes over the other's velocity along that line
//! and keeps its own across it. The other molecule is not touched: its own
//! response is computed when its turn comes.

use vstd::prelude::*;
use crate::config::{
    COUNT_LIMIT, DEGENERATE_DIST_SQ, POSITION_LIMIT, REQUIRED_DISTANCE, VELOCITY_LIMIT,
};
use crate::fixed::{
    div_toward_zero, lemma_floor_sqrt_of_square, lemma_product_bound, lemma_root_bound,
    lemma_square_bound, lemma_square_sign, lemma_toward_zero, lemma_toward_zero_square, magnitude,
    toward_zero,
};
use crate::molecule::{bodies, Body, Molecule};
use crate::vector::{
    Point, Vec2, lemma_dot_bound, lemma_norm_sq_zero, lemma_scaled_part_bound,
    lemma_scaled_part_grows, lemma_two_squares, rescaled,
};

verus! {

/// The squared centre distance at which two molecules just touch.
pub open spec fn required_dist_sq() -> nat {
    (REQUIRED_DISTANCE * REQUIRED_DISTANCE) as nat
}

/// The push that frees a molecule from one that lies at displacement `d`:
/// half of what `d` lacks to the required distance.
///
/// With `dist` the length of `d`, the exact push is
/// `d * (REQUIRED_DISTANCE - dist) / (2 * dist)`. Each coordinate of the
/// result is that real number rounded toward zero.
pub open spec fn half_overlap(d: Point) -> Point {
    let q = rescaled(d, required_dist_sq());
    Point { x: toward_zero(q.x - d.x, 2), y: toward_zero(q.y - d.y, 2) }
}

/// The velocity after a collision along the line of centres `d`: the part of
/// `other_velocity` along `d` plus the part of `own_velocity` across `d`.
///
/// With `n` the unit vector along `d` and `t` the one across, the exact
/// value is `(n . other_velocity) * n + (t . own_velocity) * t`. Each
/// coordinate of the result is that real number rounded toward zero.
pub open spec fn exchanged(d: Point, other_velocity: Point, own_velocity: Point) -> Point {
    let t = d.perp();
    let along = d.dot(other_velocity);
    let across = t.dot(own_velocity);
    Point {
        x: toward_zero(along * d.x + across * t.x, d.norm_sq() as int),
        y: toward_zero(along * d.y + across * t.y, d.norm_sq() as int),
    }
}

/// The two are different molecules that overlap and do not coincide.
pub open spec fn overlapping(b: Body, ob: Body) -> bool {
    let dist_sq = ob.position.minus(b.position).norm_sq();
    ob.id != b.id && DEGENERATE_DIST_SQ <= dist_sq <= required_dist_sq()
}

/// Molecule `b` after it has met molecule `ob`.
pub open spec fn bumped(b: Body, ob: Body) -> Body {
    let d = ob.position.minus(b.position);
    if overlapping(b, ob) {
        Body {
            position: b.position.minus(half_overlap(d)),
            velocity: exchanged(d, ob.velocity, b.velocity),
            id: b.id,
        }
    } else {
        b
    }
}

/// Molecule `b` after it has met the first `count` of `others`, in order.
pub open spec fn collided_with(b: Body, others: Seq<Body>, count: nat) -> Body
    decreases count,
{
    if count == 0 {
        b
    } else {
        bumped(collided_with(b, others, (count - 1) as nat), others[count - 1])
    }
}

/// Molecule `b` after it has met all of `others`, in order.
pub open spec fn collided(b: Body, others: Seq<Body>) -> Body {
    collided_with(b, others, others.len())
}

/// Largest coordinate magnitude that a single collision accepts.
const BUMP_POSITION_LIMIT: i64 = 0x4000_0000_0000_0000;

/// Largest velocity component magnitude that a single collision accepts.
const BUMP_VELOCITY_LIMIT: i64 = 0x1_0000_0000;

/// A collision hands on no more than the two molecules brought: the squared
/// speed after it is at most the sum of the two squared speeds before.
pub proof fn lemma_exchanged_energy(d: Point, w: Point, v: Point)
    requires
        d.x != 0 || d.y != 0,
    ensures
        exchanged(d, w, v).norm_sq() <= w.norm_sq() + v.norm_sq(),
{
    lemma_square_sign(d.x);
    lemma_square_sign(d.y);
    lemma_square_sign(w.x);
    lemma_square_sign(w.y);
    lemma_square_sign(v.x);
    lemma_square_sign(v.y);
    let t = d.perp();
    let a = d.dot(w);
    let c = t.dot(v);
    let dd = d.x * d.x + d.y * d.y;
    let ww = w.x * w.x + w.y * w.y;
    let vv = v.x * v.x + v.y * v.y;
    let ex = a * d.x + c * t.x;
    let ey = a * d.y + c * t.y;
    let n = exchanged(d, w, v);
    let turned = Point { x: d.x, y: -d.y };
    lemma_two_squares(Point { x: a, y: c }, turned);
    assert(turned.y * turned.y == d.y * d.y) by (nonlinear_arith)
        requires
            turned.y == -d.y,
    ;
    assert(a * turned.y - c * turned.x == -ey) by (nonlinear_arith)
        requires
            ey == a * d.y + c * t.y,
            t.y == d.x,
            turned.x == d.x,
            turned.y == -d.y,
    ;
    assert(a * turned.x + c * turned.y == ex) by (nonlinear_arith)
        requires
            ex == a * d.x + c * t.x,
            t.x == -d.y,
            turned.x == d.x,
            turned.y == -d.y,
    ;
    assert((-ey) * (-ey) == ey * ey) by (nonlinear_arith);
    assert(ex * ex + ey * ey == (a * a + c * c) * dd);
    lemma_dot_bound(d, w);
    lemma_dot_bound(t, v);
    assert(t.x * t.x + t.y * t.y == dd) by (nonlinear_arith)
        requires
            t.x == -d.y,
            t.y == d.x,
            dd == d.x * d.x + d.y * d.y,
    ;
    lemma_toward_zero_square(ex, dd);
    lemma_toward_zero_square(ey, dd);
    lemma_square_sign(n.x);
    lemma_square_sign(n.y);
    let nx2 = n.x * n.x;
    let ny2 = n.y * n.y;
    let aa = a * a;
    let cc = c * c;
    let ex2 = ex * ex;
    let ey2 = ey * ey;
    let dd2 = dd * dd;
    assert((nx2 + ny2) * dd2 <= (ww + vv) * dd2) by (nonlinear_arith)
        requires
            nx2 * dd2 <= ex2,
            ny2 * dd2 <= ey2,
            ex2 + ey2 == (aa + cc) * dd,
            aa <= dd * ww,
            cc <= dd * vv,
            dd > 0,
            dd2 == dd * dd,
    ;
    assert(nx2 + ny2 <= ww + vv) by (nonlinear_arith)
        requires
            (nx2 + ny2) * dd2 <= (ww + vv) * dd2,
            dd2 == dd * dd,
            dd > 0,
    ;
}

/// The push lies along the displacement, coordinate by coordinate, and is at
/// most half the required distance in each.
pub proof fn lemma_half_overlap(d: Point)
    requires
        d.x != 0 || d.y != 0,
        d.norm_sq() <= required_dist_sq(),
    ensures
        d.x >= 0 ==> 0 <= half_overlap(d).x,
        d.x <= 0 ==> half_overlap(d).x <= 0,
        d.y >= 0 ==> 0 <= half_overlap(d).y,
        d.y <= 0 ==> half_overlap(d).y <= 0,
        2 * magnitude(half_overlap(d).x) <= REQUIRED_DISTANCE,
        2 * magnitude(half_overlap(d).y) <= REQUIRED_DISTANCE,
        2 * magnitude(half_overlap(d).x) <= magnitude(rescaled(d, required_dist_sq()).x)
            - magnitude(d.x) < 2 * magnitude(half_overlap(d).x) + 2,
        2 * magnitude(half_overlap(d).y) <= magnitude(rescaled(d, required_dist_sq()).y)
            - magnitude(d.y) < 2 * magnitude(half_overlap(d).y) + 2,
        magnitude(rescaled(d, required_dist_sq()).x) >= magnitude(d.x),
        magnitude(rescaled(d, required_dist_sq()).y) >= magnitude(d.y),
        rescaled(d, required_dist_sq()).within(REQUIRED_DISTANCE as int),
{
    let len_sq = required_dist_sq();
    lemma_square_sign(d.x);
    lemma_square_sign(d.y);
    lemma_scaled_part_bound(d.x, d.y, len_sq);
    lemma_scaled_part_bound(d.y, d.x, len_sq);
    lemma_scaled_part_grows(d.x, d.y, len_sq);
    lemma_scaled_part_grows(d.y, d.x, len_sq);
    lemma_floor_sqrt_of_square(REQUIRED_DISTANCE as nat);
    let q = rescaled(d, len_sq);
    lemma_toward_zero(q.x - d.x, 2);
    lemma_toward_zero(q.y - d.y, 2);
}

/// What a single collision changes stays within bounds: the position moves
/// by at most half the required distance in each coordinate, and the squared
/// speed rises by at most the squared speed of the other molecule.
pub proof fn lemma_bumped_bounds(b: Body, ob: Body)
    ensures
        2 * magnitude(bumped(b, ob).position.x - b.position.x) <= REQUIRED_DISTANCE,
        2 * magnitude(bumped(b, ob).position.y - b.position.y) <= REQUIRED_DISTANCE,
        bumped(b, ob).velocity.norm_sq() <= b.velocity.norm_sq() + ob.velocity.norm_sq(),
        bumped(b, ob).id == b.id,
{
    let d = ob.position.minus(b.position);
    if overlapping(b, ob) {
        lemma_norm_sq_zero(d);
        lemma_half_overlap(d);
        lemma_exchanged_energy(d, ob.velocity, b.velocity);
    }
}

impl Molecule {
    /// Resolves the overlap of this molecule with `ob`, if there is one. Only
    /// this molecule changes.
    fn bump(&mut self, ob: &Molecule)
        requires
            old(self)@.within(BUMP_POSITION_LIMIT as int, BUMP_VELOCITY_LIMIT as int),
            ob@.velocity.within(BUMP_VELOCITY_LIMIT as int),
        ensures
            final(self)@ == bumped(old(self)@, ob@),
    {
        let ghost before = self@;
        let ghost d = ob@.position.minus(before.position);
        proof {
            lemma_norm_sq_zero(d);
            lemma_square_sign(d.x);
            lemma_square_sign(d.y);
        }
        if ob.id == self.id {
            return;
        }
        let req_dist: i128 = REQUIRED_DISTANCE as i128;
        let dx: i128 = ob.position.x as i128 - self.position.x as i128;
        let dy: i128 = ob.position.y as i128 - self.position.y as i128;
        if dx > req_dist || dx < -req_dist || dy > req_dist || dy < -req_dist {
            proof {
                assert(dx * dx + dy * dy > req_dist * req_dist) by (nonlinear_arith)
                    requires
                        dx > req_dist || dx < -req_dist || dy > req_dist || dy < -req_dist,
                        req_dist > 0,
                ;
            }
            return;
        }
        proof {
            lemma_square_bound(dx as int, req_dist as int);
            lemma_square_bound(dy as int, req_dist as int);
        }
        let dist_sq: i128 = dx * dx + dy * dy;
        if dist_sq < DEGENERATE_DIST_SQ as i128 {
            return;
        }
        let req_dist_sq: i128 = req_dist * req_dist;
        if dist_sq > req_dist_sq {
            return;
        }
        let diff = Vec2 { x: dx as i64, y: dy as i64 };
        assert(diff@ == d);
        let reach = diff.rescaled(req_dist_sq as u64);
        proof {
            lemma_half_overlap(d);
        }
        let half_x: i128 = div_toward_zero(reach.x as i128 - dx, 2);
        let half_y: i128 = div_toward_zero(reach.y as i128 - dy, 2);

        let w = ob.velocity;
        let v = self.velocity;
        proof {
            let limit = BUMP_VELOCITY_LIMIT as int;
            lemma_product_bound(dx as int, w.x as int, req_dist as int, limit);
            lemma_product_bound(dy as int, w.y as int, req_dist as int, limit);
            lemma_product_bound(-dy as int, v.x as int, req_dist as int, limit);
            lemma_product_bound(dx as int, v.y as int, req_dist as int, limit);
        }
        let along: i128 = dx * (w.x as i128) + dy * (w.y as i128);
        let across: i128 = (-dy) * (v.x as i128) + dx * (v.y as i128);
        proof {
            let limit = 2 * (req_dist * BUMP_VELOCITY_LIMIT);
            lemma_product_bound(along as int, dx as int, limit, req_dist as int);
            lemma_product_bound(along as int, dy as int, limit, req_dist as int);
            lemma_product_bound(across as int, -dy as int, limit, req_dist as int);
            lemma_product_bound(across as int, dx as int, limit, req_dist as int);
        }
        let new_x: i128 = div_toward_zero(along * dx + across * (-dy), dist_sq);
        let new_y: i128 = div_toward_zero(along * dy + across * dx, dist_sq);
        proof {
            let n = exchanged(d, w@, v@);
            assert(n.x == new_x && n.y == new_y);
            lemma_exchanged_energy(d, w@, v@);
            lemma_norm_sq_zero(n);
            lemma_norm_sq_zero(w@);
            lemma_norm_sq_zero(v@);
            lemma_square_bound(w.x as int, BUMP_VELOCITY_LIMIT as int);
            lemma_square_bound(w.y as int, BUMP_VELOCITY_LIMIT as int);
            lemma_square_bound(v.x as int, BUMP_VELOCITY_LIMIT as int);
            lemma_square_bound(v.y as int, BUMP_VELOCITY_LIMIT as int);
            lemma_square_sign(n.x);
            lemma_square_sign(n.y);
            assert(0x1_0000_0000int * 0x1_0000_0000int == 0x1_0000_0000_0000_0000int)
                by (nonlinear_arith);
            assert(0x2_0000_0000int * 0x2_0000_0000int == 0x4_0000_0000_0000_0000int)
                by (nonlinear_arith);
            lemma_root_bound(n.x, 0x2_0000_0000);
            lemma_root_bound(n.y, 0x2_0000_0000);
        }
        self.position = Vec2 {
            x: (self.position.x as i128 - half_x) as i64,
            y: (self.position.y as i128 - half_y) as i64,
        };
        self.velocity = Vec2 { x: new_x as i64, y: new_y as i64 };
    }

    /// Resolves the overlaps of this molecule with each of `others`, in
    /// order. An entry with this molecule's own identity is passed over.
    pub fn collide(&mut self, others: &Vec<Molecule>)
        requires
            others.len() <= COUNT_LIMIT,
            old(self)@.in_wide_range(),
            forall|i: int|
                0 <= i < others.len() ==> (#[trigger] others[i])@.velocity.within(
                    2 * VELOCITY_LIMIT,
                ),
        ensures
            final(self)@ == collided(old(self)@, bodies(others@)),
    {
        proof {
            lemma_square_bound(self.velocity.x as int, 2 * VELOCITY_LIMIT);
            lemma_square_bound(self.velocity.y as int, 2 * VELOCITY_LIMIT);
            lemma_norm_sq_zero(self@.velocity);
            assert(0x20_0000int * 0x20_0000int == 0x400_0000_0000int) by (nonlinear_arith);
        }
        let mut i: usize = 0;
        while i < others.len()
            invariant
                i <= others.len() <= COUNT_LIMIT,
                self@ == collided_with(old(self)@, bodies(others@), i as nat),
                self@.position.within(2 * POSITION_LIMIT + i * 5_000),
                self@.velocity.norm_sq() <= (i + 1) * 0x800_0000_0000,
                forall|k: int|
                    0 <= k < others.len() ==> (#[trigger] others[k])@.velocity.within(
                        2 * VELOCITY_LIMIT,
                    ),
            decreases others.len() - i,
        {
            let ghost before = self@;
            let ob = &others[i];
            proof {
                lemma_norm_sq_zero(before.velocity);
                lemma_square_sign(before.velocity.x);
                lemma_square_sign(before.velocity.y);
                assert(0x1_0000_0000int * 0x1_0000_0000int == 0x1_0000_0000_0000_0000int)
                    by (nonlinear_arith);
                lemma_root_bound(before.velocity.x, 0x1_0000_0000);
                lemma_root_bound(before.velocity.y, 0x1_0000_0000);
                assert(others[i as int]@.velocity.within(2 * VELOCITY_LIMIT));
                lemma_bumped_bounds(before, ob@);
                lemma_square_bound(ob.velocity.x as int, 2 * VELOCITY_LIMIT);
                lemma_square_bound(ob.velocity.y as int, 2 * VELOCITY_LIMIT);
                lemma_norm_sq_zero(ob@.velocity);
                assert(0x20_0000int * 0x20_0000int == 0x400_0000_0000int) by (nonlinear_arith);
                assert(bodies(others@)[i as int] == ob@);
            }
            self.bump(ob);
            i += 1;
        }
    }
}

} // verus!
