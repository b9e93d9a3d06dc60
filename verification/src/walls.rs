//! Movement of one molecule and its collisions with the four walls.
//!
//! Three walls mirror the molecule. The bottom wall is a deflector: it turns
//! the velocity as a tilted panel would and adds a sideways drift.

use vstd::prelude::*;
use crate::config::{
    HEIGHT, M, MOLECULE_RADIUS, PANEL_ACROSS, PANEL_ALONG, PANEL_WHOLE, VELOCITY_LIMIT, WIDTH,
};
use crate::fixed::{lemma_product_bound, lemma_square_bound, lemma_square_sign};
use crate::molecule::{Body, Molecule};
use crate::vector::{
    Point, RESCALE_COMPONENT_LIMIT, Vec2, lemma_norm_sq_zero, lemma_rescaled_within, rescaled,
};

verus! {

/// Where the molecule would be after one step, walls aside.
pub open spec fn tentative(b: Body) -> Point {
    b.position.plus(b.velocity)
}

/// The step would carry the molecule into the left wall.
pub open spec fn hits_left(b: Body) -> bool {
    tentative(b).x <= MOLECULE_RADIUS
}

/// The step would carry the molecule into the right wall.
pub open spec fn hits_right(b: Body) -> bool {
    tentative(b).x >= WIDTH - MOLECULE_RADIUS
}

/// The step would carry the molecule into the top wall.
pub open spec fn hits_top(b: Body) -> bool {
    tentative(b).y <= MOLECULE_RADIUS
}

/// The step would carry the molecule into the bottom wall, the deflector.
pub open spec fn hits_bottom(b: Body) -> bool {
    tentative(b).y >= HEIGHT - MOLECULE_RADIUS
}

/// The incoming vector `u` mirrored at a panel.
///
/// For a panel of direction `(bx, by)` the three factors are
/// `along = bx * bx - by * by`, `across = 2 * bx * by` and
/// `whole = bx * bx + by * by`. The second coordinate takes its first term
/// from `z`, which the two branches of the deflector choose differently.
pub open spec fn reflected(along: int, across: int, whole: int, u: Point, z: int) -> Point {
    Point { x: along * u.x + across * u.y, y: across * z - whole * u.y }
}

/// The direction in which the deflector sends a molecule of velocity `v`,
/// before the speed is restored and the drift is added. A molecule that
/// outruns the drift meets the panel as it stands, with the drift taken off
/// its velocity. Any other meets the panel mirrored, which turns the sign of
/// `PANEL_ACROSS`, with the drift put on; there the second coordinate takes
/// its first term from the second coordinate of the velocity.
pub open spec fn panel_image(v: Point) -> Point {
    if v.x - M > 0 {
        reflected(
            PANEL_ALONG as int,
            PANEL_ACROSS as int,
            PANEL_WHOLE as int,
            Point { x: v.x - M, y: v.y },
            v.x - M,
        )
    } else {
        reflected(
            PANEL_ALONG as int,
            -PANEL_ACROSS,
            PANEL_WHOLE as int,
            Point { x: v.x + M, y: v.y },
            v.y + M,
        )
    }
}

/// The drift that the deflector adds: `M` to the right for a molecule that
/// outruns the drift, `M` to the left for any other.
pub open spec fn drift(v: Point) -> Point {
    if v.x - M > 0 {
        Point { x: M as int, y: 0 }
    } else {
        Point { x: -M, y: 0 }
    }
}

/// The velocity with which a molecule of velocity `v` leaves the deflector:
/// its panel image at the speed of `v`, plus the drift.
pub open spec fn deflected(v: Point) -> Point {
    rescaled(panel_image(v), v.norm_sq()).plus(drift(v))
}

/// The left wall: the first coordinate is mirrored at one radius from the
/// wall, the second is the tentative one, the velocity turns back.
pub open spec fn after_left(s: Body, t: Point) -> Body {
    Body {
        position: Point { x: 2 * MOLECULE_RADIUS - t.x, y: t.y },
        velocity: Point { x: -s.velocity.x, y: s.velocity.y },
        id: s.id,
    }
}

/// The right wall, as the left one.
pub open spec fn after_right(s: Body, t: Point) -> Body {
    Body {
        position: Point { x: 2 * (WIDTH - MOLECULE_RADIUS) - t.x, y: t.y },
        velocity: Point { x: -s.velocity.x, y: s.velocity.y },
        id: s.id,
    }
}

/// The top wall: the second coordinate is mirrored, the first is the
/// tentative one.
pub open spec fn after_top(s: Body, t: Point) -> Body {
    Body {
        position: Point { x: t.x, y: 2 * MOLECULE_RADIUS - t.y },
        velocity: Point { x: s.velocity.x, y: -s.velocity.y },
        id: s.id,
    }
}

/// The deflector: the velocity is deflected, the first coordinate is the
/// tentative one, and the second is `start_y`, the one before the step,
/// mirrored at one radius from the wall.
pub open spec fn after_bottom(s: Body, t: Point, start_y: int) -> Body {
    Body {
        position: Point { x: t.x, y: 2 * (HEIGHT - MOLECULE_RADIUS) - start_y },
        velocity: deflected(s.velocity),
        id: s.id,
    }
}

/// The molecule after one step of travel. The walls that the tentative
/// position touches act in the order left, right, top, bottom, each on what
/// the one before left; where none is touched the molecule takes the
/// tentative position.
pub open spec fn moved(b: Body) -> Body {
    let t = tentative(b);
    let s1 = if hits_left(b) {
        after_left(b, t)
    } else {
        b
    };
    let s2 = if hits_right(b) {
        after_right(s1, t)
    } else {
        s1
    };
    let s3 = if hits_top(b) {
        after_top(s2, t)
    } else {
        s2
    };
    let s4 = if hits_bottom(b) {
        after_bottom(s3, t, b.position.y)
    } else {
        s3
    };
    if hits_left(b) || hits_right(b) || hits_top(b) || hits_bottom(b) {
        s4
    } else {
        Body { position: t, velocity: b.velocity, id: b.id }
    }
}

/// A step of travel keeps the identity, and carries a molecule in range no
/// further than twice the limits of the range.
pub proof fn lemma_moved_range(b: Body)
    requires
        b.in_range(),
    ensures
        moved(b).in_wide_range(),
        moved(b).id == b.id,
{
    let v = b.velocity;
    let flipped_x = Point { x: -v.x, y: v.y };
    let flipped_y = Point { x: v.x, y: -v.y };
    let flipped = Point { x: -v.x, y: -v.y };
    lemma_deflected_range(v);
    lemma_deflected_range(flipped_x);
    lemma_deflected_range(flipped_y);
    lemma_deflected_range(flipped);
}

/// The deflector sends a velocity in range no further than twice the limit.
pub proof fn lemma_deflected_range(v: Point)
    requires
        v.within(VELOCITY_LIMIT as int),
    ensures
        deflected(v).within(2 * VELOCITY_LIMIT),
{
    lemma_square_bound(v.x, VELOCITY_LIMIT as int);
    lemma_square_bound(v.y, VELOCITY_LIMIT as int);
    lemma_norm_sq_zero(v);
    assert(0x10_0000int * 0x10_0000int == 0x100_0000_0000int) by (nonlinear_arith);
    assert(0x18_0000int * 0x18_0000int == 0x240_0000_0000int) by (nonlinear_arith);
    lemma_rescaled_within(panel_image(v), v.norm_sq(), 0x18_0000);
}

/// Mirrors `(ux, uy)` at the panel, or at the mirrored panel where `across`
/// is negative. The second coordinate takes its first term from `uz`.
fn reflect(across: i64, ux: i64, uy: i64, uz: i64) -> (r: Vec2)
    requires
        across == PANEL_ACROSS || across == -PANEL_ACROSS,
        -VELOCITY_LIMIT - M <= ux <= VELOCITY_LIMIT + M,
        -VELOCITY_LIMIT - M <= uy <= VELOCITY_LIMIT + M,
        -VELOCITY_LIMIT - M <= uz <= VELOCITY_LIMIT + M,
    ensures
        r@ == reflected(
            PANEL_ALONG as int,
            across as int,
            PANEL_WHOLE as int,
            Point { x: ux as int, y: uy as int },
            uz as int,
        ),
        r.within(RESCALE_COMPONENT_LIMIT as int),
{
    proof {
        let reach = VELOCITY_LIMIT + M;
        lemma_product_bound(across as int, uy as int, PANEL_ACROSS as int, reach);
        lemma_product_bound(across as int, uz as int, PANEL_ACROSS as int, reach);
    }
    Vec2 { x: PANEL_ALONG * ux + across * uy, y: across * uz - PANEL_WHOLE * uy }
}

/// The velocity with which a molecule leaves the deflector.
pub fn deflect(velocity: Vec2) -> (r: Vec2)
    requires
        velocity.within(VELOCITY_LIMIT as int),
    ensures
        r@ == deflected(velocity@),
{
    proof {
        lemma_square_bound(velocity.x as int, VELOCITY_LIMIT as int);
        lemma_square_bound(velocity.y as int, VELOCITY_LIMIT as int);
        assert(0x10_0000int * 0x10_0000int == 0x100_0000_0000int) by (nonlinear_arith);
        lemma_square_sign(velocity.x as int);
        lemma_square_sign(velocity.y as int);
    }
    let speed_sq: u64 = (velocity.x * velocity.x + velocity.y * velocity.y) as u64;
    if velocity.x - M > 0 {
        let image = reflect(PANEL_ACROSS, velocity.x - M, velocity.y, velocity.x - M);
        let turned = image.rescaled(speed_sq);
        proof {
            lemma_rescaled_within(image@, speed_sq as nat, 0x20_0000);
        }
        Vec2 { x: turned.x + M, y: turned.y }
    } else {
        let image = reflect(-PANEL_ACROSS, velocity.x + M, velocity.y, velocity.y + M);
        let turned = image.rescaled(speed_sq);
        proof {
            lemma_rescaled_within(image@, speed_sq as nat, 0x20_0000);
        }
        Vec2 { x: turned.x - M, y: turned.y }
    }
}

impl Molecule {
    /// Moves the molecule by one step and resolves its collisions with the
    /// walls.
    pub fn make_move(&mut self)
        requires
            old(self)@.in_range(),
        ensures
            final(self)@ == moved(old(self)@),
    {
        let start = self.position;
        let new_position = Vec2 {
            x: self.position.x + self.velocity.x,
            y: self.position.y + self.velocity.y,
        };

        let left_collision = new_position.x <= MOLECULE_RADIUS;
        let right_collision = new_position.x >= WIDTH - MOLECULE_RADIUS;
        let top_collision = new_position.y <= MOLECULE_RADIUS;
        let bottom_collision = new_position.y >= HEIGHT - MOLECULE_RADIUS;

        if left_collision {
            self.position.y = new_position.y;
            self.position.x = 2 * MOLECULE_RADIUS - new_position.x;
            self.velocity.x = -self.velocity.x;
        }
        if right_collision {
            self.position.y = new_position.y;
            self.position.x = 2 * (WIDTH - MOLECULE_RADIUS) - new_position.x;
            self.velocity.x = -self.velocity.x;
        }
        if top_collision {
            self.position.x = new_position.x;
            self.position.y = 2 * MOLECULE_RADIUS - new_position.y;
            self.velocity.y = -self.velocity.y;
        }
        if bottom_collision {
            self.velocity = deflect(self.velocity);
            self.position.x = new_position.x;
            self.position.y = 2 * (HEIGHT - MOLECULE_RADIUS) - start.y;
        }
        if !left_collision && !right_collision && !top_collision && !bottom_collision {
            self.position = new_position;
        }
    }
}

} // verus!
