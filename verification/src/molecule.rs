//! A molecule and its mathematical model.

use vstd::prelude::*;
use crate::config::{POSITION_LIMIT, VELOCITY_LIMIT};
use crate::vector::{Point, Vec2};

verus! {

/// The model of a molecule: where it is, how far it travels in one step, and
/// which one it is.
pub struct Body {
    pub position: Point,
    pub velocity: Point,
    pub id: nat,
}

impl Body {
    /// The position lies within `position_limit` of the origin in each
    /// coordinate, the velocity within `velocity_limit` of zero.
    pub open spec fn within(self, position_limit: int, velocity_limit: int) -> bool {
        self.position.within(position_limit) && self.velocity.within(velocity_limit)
    }

    /// The molecule is one that a step accepts.
    pub open spec fn in_range(self) -> bool {
        self.within(POSITION_LIMIT as int, VELOCITY_LIMIT as int)
    }

    /// The molecule is one that the collision pass accepts. A step of travel
    /// takes a molecule in range no further than this.
    pub open spec fn in_wide_range(self) -> bool {
        self.within(2 * POSITION_LIMIT, 2 * VELOCITY_LIMIT)
    }
}

/// A circular particle: centre, displacement per step, and a stable identity.
#[derive(Clone, Copy, Debug, PartialEq, Eq, Structural)]
pub struct Molecule {
    pub position: Vec2,
    pub velocity: Vec2,
    pub id: usize,
}

impl View for Molecule {
    type V = Body;

    open spec fn view(&self) -> Body {
        Body { position: self.position@, velocity: self.velocity@, id: self.id as nat }
    }
}

/// The models of a sequence of molecules.
pub open spec fn bodies(molecules: Seq<Molecule>) -> Seq<Body> {
    molecules.map_values(|m: Molecule| m@)
}

impl Molecule {
    /// Tells whether a step accepts the molecule.
    pub fn in_range(&self) -> (ok: bool)
        ensures
            ok == self@.in_range(),
    {
        -POSITION_LIMIT <= self.position.x && self.position.x <= POSITION_LIMIT && -POSITION_LIMIT
            <= self.position.y && self.position.y <= POSITION_LIMIT && -VELOCITY_LIMIT
            <= self.velocity.x && self.velocity.x <= VELOCITY_LIMIT && -VELOCITY_LIMIT
            <= self.velocity.y && self.velocity.y <= VELOCITY_LIMIT
    }
}

} // verus!
