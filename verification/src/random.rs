//! Molecules launched at random.

use rand::Rng;
use vstd::prelude::*;
use crate::config::{HEIGHT, LAUNCH_SPEED_SQ, WIDTH};
use crate::fixed::{lemma_root_bound, lemma_square_bound, lemma_square_sign, magnitude};
use crate::molecule::{Body, Molecule};
use crate::vector::{
    Point, Vec2, lemma_norm_sq_zero, lemma_rescaled_length, lemma_rescaled_within, rescaled,
};

verus! {

/// Radius of the disc from which a heading is drawn.
pub const HEADING_REACH: i64 = 0x10_0000;

/// Number of draws after which the search for a heading gives up.
pub const HEADING_DRAWS: u32 = 64;

/// The vector can serve as a heading: it is not zero and lies in the disc of
/// radius `HEADING_REACH`. Vectors drawn evenly from the disc point evenly
/// in all directions.
pub open spec fn is_heading(h: Point) -> bool {
    0 < h.norm_sq() <= HEADING_REACH * HEADING_REACH
}

/// The velocity has the launch speed, as closely as the grid allows: it is
/// no faster, and one grid step more in each coordinate would be faster.
pub open spec fn has_launch_speed(v: Point) -> bool {
    v.norm_sq() <= LAUNCH_SPEED_SQ < (magnitude(v.x) + 1) * (magnitude(v.x) + 1) + (magnitude(v.y)
        + 1) * (magnitude(v.y) + 1)
}

/// The molecule is one that `create_random` can make: it lies in the
/// container and has the launch speed.
pub open spec fn is_fresh(b: Body) -> bool {
    &&& 0 <= b.position.x < WIDTH
    &&& 0 <= b.position.y < HEIGHT
    &&& has_launch_speed(b.velocity)
}

/// The molecule at `position` that flies along `heading` with the launch
/// speed.
pub open spec fn launched(id: nat, position: Point, heading: Point) -> Body {
    Body { position, velocity: rescaled(heading, LAUNCH_SPEED_SQ as nat), id }
}

/// A launched molecule has the launch speed and is in range of a step if
/// its position is.
pub proof fn lemma_launched(id: nat, position: Point, heading: Point)
    requires
        heading.x != 0 || heading.y != 0,
    ensures
        has_launch_speed(launched(id, position, heading).velocity),
        launched(id, position, heading).velocity.within(3_163),
{
    lemma_rescaled_length(heading, LAUNCH_SPEED_SQ as nat);
    assert(3_163int * 3_163int == 10_004_569) by (nonlinear_arith);
    lemma_rescaled_within(heading, LAUNCH_SPEED_SQ as nat, 3_163);
}

/// Draws a number from `low` up to, not including, `high` with
/// `rand::Rng::gen_range` on the generator of the current thread. Of the
/// result only its range is claimed; each call may return another number.
#[verifier::external_body]
fn random_in(low: i64, high: i64) -> (r: i64)
    requires
        low < high,
    ensures
        low <= r < high,
{
    rand::thread_rng().gen_range(low..high)
}

impl Vec2 {
    /// Tells whether the vector can serve as a heading.
    pub fn is_heading(&self) -> (ok: bool)
        ensures
            ok == is_heading(self@),
    {
        proof {
            lemma_norm_sq_zero(self@);
        }
        if self.x > HEADING_REACH || self.x < -HEADING_REACH || self.y > HEADING_REACH || self.y
            < -HEADING_REACH {
            proof {
                let x = self.x as int;
                let y = self.y as int;
                let reach = HEADING_REACH as int;
                assert(x * x + y * y > reach * reach) by (nonlinear_arith)
                    requires
                        x > reach || x < -reach || y > reach || y < -reach,
                        reach > 0,
                ;
            }
            return false;
        }
        proof {
            lemma_square_bound(self.x as int, HEADING_REACH as int);
            lemma_square_bound(self.y as int, HEADING_REACH as int);
            assert(0x10_0000int * 0x10_0000int == 0x100_0000_0000int) by (nonlinear_arith);
        }
        let len_sq: i64 = self.x * self.x + self.y * self.y;
        0 < len_sq && len_sq <= HEADING_REACH * HEADING_REACH
    }
}

/// Draws a heading: points of the square around the disc are drawn until one
/// falls into the disc. After `HEADING_DRAWS` misses the heading is the one
/// along the first axis.
fn random_heading() -> (h: Vec2)
    ensures
        is_heading(h@),
{
    let mut draws: u32 = 0;
    while draws < HEADING_DRAWS
        invariant
            draws <= HEADING_DRAWS,
        decreases HEADING_DRAWS - draws,
    {
        let x: i64 = random_in(-HEADING_REACH, HEADING_REACH + 1);
        let y: i64 = random_in(-HEADING_REACH, HEADING_REACH + 1);
        let drawn = Vec2 { x, y };
        if drawn.is_heading() {
            return drawn;
        }
        draws += 1;
    }
    let along = Vec2 { x: HEADING_REACH, y: 0 };
    proof {
        lemma_norm_sq_zero(along@);
        assert(0x10_0000int * 0x10_0000int + 0int * 0int == 0x10_0000int * 0x10_0000int)
            by (nonlinear_arith);
        assert(0x10_0000int * 0x10_0000int == 0x100_0000_0000int) by (nonlinear_arith);
    }
    along
}

impl Molecule {
    /// The molecule `id` at `position` that flies along `heading` with the
    /// launch speed.
    pub fn launched(id: usize, position: Vec2, heading: Vec2) -> (m: Molecule)
        requires
            is_heading(heading@),
        ensures
            m@ == launched(id as nat, position@, heading@),
    {
        proof {
            lemma_norm_sq_zero(heading@);
            lemma_heading_within(heading@);
        }
        Molecule { position, velocity: heading.rescaled(LAUNCH_SPEED_SQ), id }
    }

    /// Makes the molecule `id` at a random place of the container, flying in
    /// a random direction with the launch speed.
    pub fn create_random(id: usize) -> (m: Molecule)
        ensures
            m@.id == id,
            is_fresh(m@),
            m@.in_range(),
    {
        let heading = random_heading();
        let position = Vec2 { x: random_in(0, WIDTH), y: random_in(0, HEIGHT) };
        proof {
            lemma_norm_sq_zero(heading@);
            lemma_launched(id as nat, position@, heading@);
        }
        Molecule::launched(id, position, heading)
    }
}

/// A heading lies within `HEADING_REACH` in each coordinate.
pub proof fn lemma_heading_within(h: Point)
    requires
        is_heading(h),
    ensures
        h.within(HEADING_REACH as int),
{
    lemma_norm_sq_zero(h);
    lemma_square_sign(h.x);
    lemma_square_sign(h.y);
    lemma_root_bound(h.x, HEADING_REACH as int);
    lemma_root_bound(h.y, HEADING_REACH as int);
}

} // verus!
