//! The fixed configuration of the simulation.
//!
//! Every length, speed and ratio is a fixed-point number: an integer count of
//! thousandths. A position of `1_000` is one length unit from the origin.

use vstd::prelude::*;

verus! {

/// Grid steps per length unit.
pub const UNIT: i64 = 1_000;

/// Width of the container.
pub const WIDTH: i64 = 1_920_000;

/// Height of the container.
pub const HEIGHT: i64 = 1_080_000;

/// Number of molecules in a freshly made store.
pub const NUM_MOLECULES: usize = 200;

/// Base speed scale. A new molecule is launched with the square root of this
/// many length units per step.
pub const MOLECULE_SPEED: i64 = 10_000;

/// Radius of a molecule.
pub const MOLECULE_RADIUS: i64 = 5_000;

/// Share of the base speed that the deflector adds as drift.
pub const BOUNDARY_RATIO: i64 = 200;

/// Drift that the deflector imparts: `MOLECULE_SPEED` times `BOUNDARY_RATIO`.
pub const M: i64 = 2_000;

/// Half-angle of the deflector panel in thousandths of a radian (15 degrees).
pub const BOUNDARY_ANGLE_RADS: i64 = 262;

/// Cosine of twice the panel angle, in millionths. For a panel of direction
/// `(bx, by)` this is `bx * bx - by * by`.
pub const PANEL_ALONG: i64 = 866_025;

/// Sine of twice the panel angle, in millionths. For a panel of direction
/// `(bx, by)` this is `2 * bx * by`.
pub const PANEL_ACROSS: i64 = 500_000;

/// One, in millionths. For a panel of direction `(bx, by)` this is
/// `bx * bx + by * by`.
pub const PANEL_WHOLE: i64 = 1_000_000;

/// Centre distance below which two molecules overlap: two radii.
pub const REQUIRED_DISTANCE: i64 = 10_000;

/// Squared centre distance (in squared grid steps) below which two molecules
/// count as coincident: a millionth of a squared length unit.
pub const DEGENERATE_DIST_SQ: i64 = 1;

/// Squared launch speed in squared grid steps.
pub const LAUNCH_SPEED_SQ: u64 = 10_000_000;

/// Largest coordinate magnitude that a step accepts.
pub const POSITION_LIMIT: i64 = 0x100_0000_0000;

/// Largest velocity component magnitude that a step accepts.
pub const VELOCITY_LIMIT: i64 = 0x10_0000;

/// Largest number of molecules that a step accepts.
pub const COUNT_LIMIT: usize = 0x10_0000;

/// The derived constants agree with the ones they are derived from.
pub proof fn lemma_derived_constants()
    ensures
        M * UNIT == MOLECULE_SPEED * BOUNDARY_RATIO,
        REQUIRED_DISTANCE == 2 * MOLECULE_RADIUS,
        LAUNCH_SPEED_SQ == MOLECULE_SPEED * UNIT,
        DEGENERATE_DIST_SQ * 1_000_000 == UNIT * UNIT,
{
}

/// The panel is that of 15 degrees, to the nearest millionth.
///
/// Twice the panel angle is 30 degrees. Its cosine is half the square root
/// of 3, which the first clause brackets between `PANEL_ALONG` less a half
/// and `PANEL_ALONG` plus a half; its sine is one half. The last clause says
/// how far the squares of the two are from adding up to one.
pub proof fn lemma_panel_direction()
    ensures
        (2 * PANEL_ALONG - 1) * (2 * PANEL_ALONG - 1) <= 3 * (PANEL_WHOLE * PANEL_WHOLE) < (2
            * PANEL_ALONG + 1) * (2 * PANEL_ALONG + 1),
        2 * PANEL_ACROSS == PANEL_WHOLE,
        PANEL_WHOLE * PANEL_WHOLE - PANEL_WHOLE <= PANEL_ALONG * PANEL_ALONG + PANEL_ACROSS
            * PANEL_ACROSS <= PANEL_WHOLE * PANEL_WHOLE,
{
    assert(1_732_049int * 1_732_049 == 2_999_993_738_401 && 1_732_051int * 1_732_051
        == 3_000_000_666_601) by (nonlinear_arith);
    assert(1_000_000int * 1_000_000 == 1_000_000_000_000) by (nonlinear_arith);
    assert(866_025int * 866_025 == 749_999_300_625 && 500_000int * 500_000 == 250_000_000_000)
        by (nonlinear_arith);
}

} // verus!
