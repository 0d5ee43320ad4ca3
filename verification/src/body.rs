//! Bodies and the per-kind configuration table.

use vstd::prelude::*;
use crate::vector::Vector3;

verus! {

/// The largest magnitude a position or velocity component may have.
pub const COORD_LIMIT: i64 = 100_000_000_000;

/// One full turn, in millionths of a radian.
pub const FULL_TURN: u64 = 6_283_185;

/// What a body is. The sun is the fixed center; the others orbit it.
#[derive(Clone, Copy, Debug, PartialEq, Eq, Structural)]
pub enum BodyKind {
    Sun,
    Mercury,
    Venus,
    Earth,
    Mars,
}

impl BodyKind {
    /// The angular rate of the kind, in millionths of a radian per unit time.
    pub open spec fn spin_rate_spec(self) -> int {
        match self {
            BodyKind::Sun => 0,
            BodyKind::Mercury => 10_000,
            BodyKind::Venus => 5_000,
            BodyKind::Earth => 3_000,
            BodyKind::Mars => 2_000,
        }
    }

    /// The display radius of the kind, in millionths of a world unit.
    pub open spec fn radius_spec(self) -> int {
        match self {
            BodyKind::Sun => 5_000_000,
            BodyKind::Mercury => 1_000_000,
            BodyKind::Venus => 2_500_000,
            BodyKind::Earth => 3_000_000,
            BodyKind::Mars => 2_000_000,
        }
    }

    /// Tells whether the kind is the fixed center.
    #[verifier::when_used_as_spec(is_center_spec)]
    pub fn is_center(&self) -> (b: bool)
        ensures
            b == self.is_center_spec(),
    {
        match self {
            BodyKind::Sun => true,
            _ => false,
        }
    }

    /// The kind is the fixed center.
    pub open spec fn is_center_spec(&self) -> bool {
        *self == BodyKind::Sun
    }

    /// Looks up the angular rate of the kind.
    pub fn spin_rate(&self) -> (r: u64)
        ensures
            r == self.spin_rate_spec(),
    {
        match self {
            BodyKind::Sun => 0,
            BodyKind::Mercury => 10_000,
            BodyKind::Venus => 5_000,
            BodyKind::Earth => 3_000,
            BodyKind::Mars => 2_000,
        }
    }

    /// Looks up the display radius of the kind.
    pub fn radius(&self) -> (r: u64)
        ensures
            r == self.radius_spec(),
    {
        match self {
            BodyKind::Sun => 5_000_000,
            BodyKind::Mercury => 1_000_000,
            BodyKind::Venus => 2_500_000,
            BodyKind::Earth => 3_000_000,
            BodyKind::Mars => 2_000_000,
        }
    }
}

/// One simulated body. Lengths are in millionths of a world unit,
/// velocities in millionths of a world unit per unit time, and the
/// orientation is an angle about the vertical axis in millionths of a radian.
#[derive(Clone, Copy, Debug, PartialEq, Eq, Structural)]
pub struct Body {
    pub kind: BodyKind,
    pub position: Vector3,
    pub velocity: Vector3,
    pub orientation: u64,
}

impl Body {
    /// Position and velocity are both representable.
    pub open spec fn in_range(self) -> bool {
        self.position@.within(COORD_LIMIT as int) && self.velocity@.within(COORD_LIMIT as int)
    }

    /// A body of the given kind at rest orientation.
    pub fn new(kind: BodyKind, position: Vector3, velocity: Vector3) -> (b: Body)
        ensures
            b == (Body { kind, position, velocity, orientation: 0 }),
    {
        Body { kind, position, velocity, orientation: 0 }
    }

    /// Tells whether position and velocity are both representable.
    pub fn is_in_range(&self) -> (b: bool)
        ensures
            b == self.in_range(),
    {
        self.position.is_within(COORD_LIMIT) && self.velocity.is_within(COORD_LIMIT)
    }

    /// The angular rate of the body, fixed by its kind.
    pub fn spin_rate(&self) -> (r: u64)
        ensures
            r == self.kind.spin_rate_spec(),
    {
        self.kind.spin_rate()
    }
}

} // verus!
