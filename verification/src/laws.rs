//! What holds of every step: the laws that the walls, the deflector and the
//! collisions obey.

use vstd::prelude::*;
use crate::collision::{
    bumped, collided, collided_with, half_overlap, lemma_half_overlap, overlapping,
    required_dist_sq,
};
use crate::config::{HEIGHT, M, MOLECULE_RADIUS, WIDTH};
use crate::fixed::{floor_sqrt, lemma_floor_sqrt, lemma_square_sign, magnitude};
use crate::molecule::Body;
use crate::store::{numbered, stepped};
use crate::vector::{
    Point, lemma_dot_bound, lemma_norm_sq_zero, lemma_rescaled_length, lemma_scaled_part_bound,
    rescaled,
};
use crate::walls::{
    deflected, drift, hits_bottom, hits_left, hits_right, hits_top, moved, panel_image, tentative,
};

verus! {

/// A molecule that the left or the right wall mirrors, and that the step did
/// not carry further beyond the wall than it travels in one step, ends up on
/// the inner side of that wall, no further in than it travels in one step.
/// If that is no more than the free width of the container, it ends up
/// clear of both walls. The top wall and the deflector are left out: they
/// put the molecule at the tentative place sideways.
pub proof fn lemma_mirrored_sideways_stays_inside(b: Body)
    requires
        hits_left(b) || hits_right(b),
        !hits_top(b),
        !hits_bottom(b),
        hits_left(b) ==> MOLECULE_RADIUS - tentative(b).x <= magnitude(b.velocity.x),
        hits_right(b) ==> tentative(b).x - (WIDTH - MOLECULE_RADIUS) <= magnitude(b.velocity.x),
    ensures
        hits_left(b) ==> MOLECULE_RADIUS <= moved(b).position.x <= MOLECULE_RADIUS + magnitude(
            b.velocity.x,
        ),
        hits_right(b) ==> WIDTH - MOLECULE_RADIUS - magnitude(b.velocity.x) <= moved(b).position.x
            <= WIDTH - MOLECULE_RADIUS,
        magnitude(b.velocity.x) <= WIDTH - 2 * MOLECULE_RADIUS ==> MOLECULE_RADIUS <= moved(
            b,
        ).position.x <= WIDTH - MOLECULE_RADIUS,
{
}

/// A molecule that the top wall mirrors, and that the step did not carry
/// further beyond the wall than it travels in one step, ends up below the
/// wall, no further down than it travels in one step. If that is no more
/// than the free height of the container, it ends up clear of the top and
/// of the deflector. The deflector is left out: it sets the height itself.
pub proof fn lemma_mirrored_upward_stays_inside(b: Body)
    requires
        hits_top(b),
        !hits_bottom(b),
        MOLECULE_RADIUS - tentative(b).y <= magnitude(b.velocity.y),
    ensures
        MOLECULE_RADIUS <= moved(b).position.y <= MOLECULE_RADIUS + magnitude(b.velocity.y),
        magnitude(b.velocity.y) <= HEIGHT - 2 * MOLECULE_RADIUS ==> MOLECULE_RADIUS <= moved(
            b,
        ).position.y <= HEIGHT - MOLECULE_RADIUS,
{
}

/// A molecule that meets no wall takes the tentative position and keeps its
/// velocity.
pub proof fn lemma_free_flight(b: Body)
    requires
        !hits_left(b),
        !hits_right(b),
        !hits_top(b),
        !hits_bottom(b),
    ensures
        moved(b).position == tentative(b),
        moved(b).velocity == b.velocity,
        MOLECULE_RADIUS < moved(b).position.x < WIDTH - MOLECULE_RADIUS,
        MOLECULE_RADIUS < moved(b).position.y < HEIGHT - MOLECULE_RADIUS,
{
}

/// Away from the deflector a step keeps the speed: the walls change at most
/// the sign of a velocity coordinate.
pub proof fn lemma_mirror_keeps_speed(b: Body)
    requires
        !hits_bottom(b),
    ensures
        moved(b).velocity.norm_sq() == b.velocity.norm_sq(),
        magnitude(moved(b).velocity.x) == magnitude(b.velocity.x),
        magnitude(moved(b).velocity.y) == magnitude(b.velocity.y),
        moved(b).velocity.x == if hits_left(b) != hits_right(b) {
            -b.velocity.x
        } else {
            b.velocity.x
        },
        moved(b).velocity.y == if hits_top(b) {
            -b.velocity.y
        } else {
            b.velocity.y
        },
{
    let v = b.velocity;
    let w = moved(b).velocity;
    lemma_norm_sq_zero(v);
    lemma_norm_sq_zero(w);
    assert(w.x * w.x == v.x * v.x) by (nonlinear_arith)
        requires
            w.x == v.x || w.x == -v.x,
    ;
    assert(w.y * w.y == v.y * v.y) by (nonlinear_arith)
        requires
            w.y == v.y || w.y == -v.y,
    ;
}

/// The deflector adds its drift, it does not scale by it: with the drift
/// taken off again, the outgoing velocity is the panel image at the incoming
/// speed. The drift points right for a molecule that outruns it and left for
/// any other.
pub proof fn lemma_drift_is_added(v: Point)
    ensures
        v.x - M > 0 ==> deflected(v).x - M == rescaled(panel_image(v), v.norm_sq()).x,
        v.x - M <= 0 ==> deflected(v).x + M == rescaled(panel_image(v), v.norm_sq()).x,
        deflected(v).y == rescaled(panel_image(v), v.norm_sq()).y,
        deflected(v).minus(drift(v)) == rescaled(panel_image(v), v.norm_sq()),
{
}

/// The panel image of a molecule that outruns the drift is never zero, so
/// that it always has a direction.
pub proof fn lemma_panel_image_of_fast(v: Point)
    requires
        v.x - M > 0,
    ensures
        panel_image(v).x != 0 || panel_image(v).y != 0,
{
    let ux = v.x - M;
    let r = panel_image(v);
    assert(r.x == 866_025 * ux + 500_000 * v.y);
    assert(r.y == 500_000 * ux - 1_000_000 * v.y);
}

/// The deflector restores the speed: with the drift taken off, the outgoing
/// velocity is no faster than the incoming one, and one grid step more in
/// each coordinate would make it faster, unless the panel image is zero.
pub proof fn lemma_deflector_restores_speed(v: Point)
    ensures
        deflected(v).minus(drift(v)).norm_sq() <= v.norm_sq(),
        (panel_image(v).x != 0 || panel_image(v).y != 0) ==> v.norm_sq() < (magnitude(
            deflected(v).minus(drift(v)).x,
        ) + 1) * (magnitude(deflected(v).minus(drift(v)).x) + 1) + (magnitude(
            deflected(v).minus(drift(v)).y,
        ) + 1) * (magnitude(deflected(v).minus(drift(v)).y) + 1),
        v.x - M > 0 ==> (panel_image(v).x != 0 || panel_image(v).y != 0),
{
    lemma_rescaled_length(panel_image(v), v.norm_sq());
    if v.x - M > 0 {
        lemma_panel_image_of_fast(v);
    }
}

/// Across the deflector the speed changes by no more than the drift, give or
/// take the grid. In whole grid steps, the outgoing speed is at most the
/// incoming speed plus `M`; and unless the panel image is zero, the incoming
/// speed is at most the outgoing speed plus `M` and two grid steps.
pub proof fn lemma_deflector_changes_speed_by_drift(v: Point)
    ensures
        floor_sqrt(deflected(v).norm_sq()) <= floor_sqrt(v.norm_sq()) + M,
        (panel_image(v).x != 0 || panel_image(v).y != 0) ==> floor_sqrt(v.norm_sq())
            <= floor_sqrt(deflected(v).norm_sq()) + M + 2,
{
    let len_sq = v.norm_sq();
    let s = floor_sqrt(len_sq) as int;
    let image = panel_image(v);
    let w = rescaled(image, len_sq);
    let out = deflected(v);
    let out_sq = out.norm_sq() as int;
    let t = floor_sqrt(out.norm_sq()) as int;
    let m = M as int;
    lemma_floor_sqrt(len_sq);
    lemma_floor_sqrt(out.norm_sq());
    lemma_rescaled_length(image, len_sq);
    lemma_norm_sq_zero(w);
    lemma_norm_sq_zero(out);
    lemma_square_sign(w.x);
    lemma_square_sign(w.y);
    let mx = magnitude(w.x) as int;
    let my = magnitude(w.y) as int;
    if image.x != 0 || image.y != 0 {
        lemma_scaled_part_bound(image.x, image.y, len_sq);
        lemma_scaled_part_bound(image.y, image.x, len_sq);
    } else {
        assert(mx == 0 && my == 0);
    }
    assert(mx <= s && my <= s);
    assert(out.y == w.y);
    assert(out.x * out.x <= mx * mx + 2 * m * mx + m * m && out.x * out.x >= mx * mx - 2 * m * mx
        + m * m) by (nonlinear_arith)
        requires
            out.x == w.x + m || out.x == w.x - m,
            mx == w.x || mx == -w.x,
            mx >= 0,
            m >= 0,
    ;
    assert(2 * m * mx <= 2 * m * s) by (nonlinear_arith)
        requires
            0 <= mx <= s,
            m >= 0,
    ;
    assert((s + 1 + m) * (s + 1 + m) == (s + 1) * (s + 1) + 2 * m * s + 2 * m + m * m)
        by (nonlinear_arith);
    assert(out_sq < (s + 1 + m) * (s + 1 + m));
    assert(t < s + 1 + m) by (nonlinear_arith)
        requires
            0 <= t,
            0 <= s + 1 + m,
            t * t <= out_sq < (s + 1 + m) * (s + 1 + m),
    ;
    if (image.x != 0 || image.y != 0) && s > t + m + 2 {
        let p = Point { x: mx - m, y: my };
        let q = Point { x: m + 1, y: 1 };
        let reach_p = s - m - 2;
        let reach_q = m + 2;
        lemma_norm_sq_zero(p);
        lemma_norm_sq_zero(q);
        lemma_dot_bound(p, q);
        let pp = p.norm_sq() as int;
        let qq = q.norm_sq() as int;
        let pq = p.dot(q);
        assert(pp == mx * mx - 2 * m * mx + m * m + my * my) by (nonlinear_arith)
            requires
                pp == (mx - m) * (mx - m) + my * my,
        ;
        assert(pp <= out_sq);
        assert((t + 1) * (t + 1) <= reach_p * reach_p) by (nonlinear_arith)
            requires
                0 <= t + 1 <= reach_p,
        ;
        assert(pp < reach_p * reach_p);
        assert(qq < reach_q * reach_q) by (nonlinear_arith)
            requires
                qq == (m + 1) * (m + 1) + 1 * 1,
                reach_q == m + 2,
                m >= 0,
        ;
        assert(pp * qq < (reach_p * reach_q) * (reach_p * reach_q)) by (nonlinear_arith)
            requires
                0 <= pp < reach_p * reach_p,
                0 <= qq < reach_q * reach_q,
        ;
        assert(pq < reach_p * reach_q) by (nonlinear_arith)
            requires
                pq * pq <= pp * qq,
                pp * qq < (reach_p * reach_q) * (reach_p * reach_q),
                reach_p > 0,
                reach_q > 0,
        ;
        assert((mx + 1) * (mx + 1) + (my + 1) * (my + 1) == pp + 2 * pq + qq) by (nonlinear_arith)
            requires
                pp == (mx - m) * (mx - m) + my * my,
                qq == (m + 1) * (m + 1) + 1 * 1,
                pq == (mx - m) * (m + 1) + my * 1,
        ;
        assert(s * s == reach_p * reach_p + 2 * (reach_p * reach_q) + reach_q * reach_q)
            by (nonlinear_arith)
            requires
                s == reach_p + reach_q,
        ;
        assert((mx + 1) * (mx + 1) + (my + 1) * (my + 1) < s * s);
    }
}

/// A molecule does not collide with itself: an entry with its own identity
/// leaves it as it is.
pub proof fn lemma_no_self_collision(b: Body, ob: Body)
    requires
        ob.id == b.id,
    ensures
        bumped(b, ob) == b,
{
}

/// Two molecules at the same place do not act on each other.
pub proof fn lemma_coincident_pass(a: Body, b: Body)
    requires
        a.position == b.position,
    ensures
        bumped(a, b) == a,
        bumped(b, a) == b,
        collided(a, seq![a, b]) == a,
        collided(b, seq![a, b]) == b,
{
    lemma_norm_sq_zero(b.position.minus(a.position));
    lemma_norm_sq_zero(a.position.minus(b.position));
    lemma_norm_sq_zero(a.position.minus(a.position));
    lemma_norm_sq_zero(b.position.minus(b.position));
    let both = seq![a, b];
    assert(both.len() == 2 && both[0] == a && both[1] == b);
    assert(collided_with(a, both, 0) == a);
    assert(collided_with(a, both, 1) == bumped(a, a));
    assert(collided_with(a, both, 2) == bumped(collided_with(a, both, 1), b));
    assert(collided_with(b, both, 0) == b);
    assert(collided_with(b, both, 1) == bumped(b, a));
    assert(collided_with(b, both, 2) == bumped(collided_with(b, both, 1), b));
}

/// The correction of an overlap drives the two molecules apart, and not
/// beyond touching: the corrected molecule is at least as far from the other
/// as before, and no further than the required distance. It moves along the
/// line of centres by half of what was lacking, rounded toward zero.
pub proof fn lemma_correction_separates(b: Body, ob: Body)
    requires
        overlapping(b, ob),
    ensures
        ob.position.minus(bumped(b, ob).position).norm_sq() >= ob.position.minus(
            b.position,
        ).norm_sq(),
        ob.position.minus(bumped(b, ob).position).norm_sq() <= required_dist_sq(),
        bumped(b, ob).position == b.position.minus(half_overlap(ob.position.minus(b.position))),
{
    let d = ob.position.minus(b.position);
    let h = half_overlap(d);
    let q = rescaled(d, required_dist_sq());
    let after = ob.position.minus(bumped(b, ob).position);
    lemma_norm_sq_zero(d);
    lemma_norm_sq_zero(after);
    lemma_norm_sq_zero(q);
    lemma_half_overlap(d);
    lemma_rescaled_length(d, required_dist_sq());
    assert(after.x == d.x + h.x && after.y == d.y + h.y);
    lemma_grown_square(d.x, h.x, q.x);
    lemma_grown_square(d.y, h.y, q.y);
}

/// A number grown by one of its own sign, to no more than a bound in
/// magnitude, has a square between those of the number and of the bound.
proof fn lemma_grown_square(c: int, h: int, q: int)
    requires
        c >= 0 ==> h >= 0,
        c <= 0 ==> h <= 0,
        magnitude(c) + magnitude(h) <= magnitude(q),
    ensures
        c * c <= (c + h) * (c + h) <= q * q,
{
    let mc = magnitude(c) as int;
    let mh = magnitude(h) as int;
    let mq = magnitude(q) as int;
    lemma_square_sign(c);
    lemma_square_sign(q);
    lemma_square_sign(c + h);
    assert(magnitude(c + h) == mc + mh);
    assert(mc * mc <= (mc + mh) * (mc + mh) <= mq * mq) by (nonlinear_arith)
        requires
            0 <= mc,
            0 <= mh,
            mc + mh <= mq,
    ;
}

/// Meeting others never changes the identity of a molecule.
pub proof fn lemma_collided_keeps_identity(b: Body, others: Seq<Body>, count: nat)
    ensures
        collided_with(b, others, count).id == b.id,
    decreases count,
{
    if count > 0 {
        lemma_collided_keeps_identity(b, others, (count - 1) as nat);
    }
}

/// A step neither adds nor removes a molecule, and every molecule keeps its
/// identity; molecules numbered by their place stay so.
pub proof fn lemma_step_keeps_identities(s: Seq<Body>)
    ensures
        stepped(s).len() == s.len(),
        forall|i: int| 0 <= i < s.len() ==> (#[trigger] stepped(s)[i]).id == s[i].id,
        numbered(s) ==> numbered(stepped(s)),
{
    let travelled = s.map_values(|b: Body| moved(b));
    assert forall|i: int| 0 <= i < s.len() implies (#[trigger] stepped(s)[i]).id == s[i].id by {
        lemma_collided_keeps_identity(travelled[i], travelled, travelled.len());
    }
}

/// A step treats every molecule by itself: what becomes of the molecule at
/// place `i` is its own travel followed by its meeting the others as their
/// travel left them. No molecule sees what the collision pass makes of
/// another.
pub proof fn lemma_stepped_entry(s: Seq<Body>, i: int)
    requires
        0 <= i < s.len(),
    ensures
        stepped(s)[i] == collided(moved(s[i]), s.map_values(|b: Body| moved(b))),
{
}

/// In a store whose molecules bear different identities, the pass over the
/// others leaves out exactly the molecule itself: meeting the entry at its
/// own place changes nothing.
pub proof fn lemma_own_entry_is_passed_over(s: Seq<Body>, i: int, seen: Body)
    requires
        numbered(s),
        0 <= i < s.len(),
        seen.id == i,
    ensures
        bumped(seen, s[i]) == seen,
{
}

} // verus!
