//! The spin applicator for one body: a turn about the vertical axis by the
//! angular rate of its kind, scaled by the elapsed time.

use vstd::prelude::*;
use crate::body::{Body, BodyKind, FULL_TURN};
use crate::gravity::{valid_dt, SCALE};

verus! {

/// The angle that a body of the given kind turns through in `dt`.
pub open spec fn spin_increment(kind: BodyKind, dt: int) -> int {
    (kind.spin_rate_spec() * dt) / (SCALE as int)
}

/// The orientation reached from `angle` by a turn of `turn`, within one
/// full turn.
pub open spec fn turned(angle: int, turn: int) -> int {
    (angle % (FULL_TURN as int) + turn) % (FULL_TURN as int)
}

/// The body after its spin has acted for `dt`. A body whose kind does not
/// spin is kept as it is; position and velocity are never touched.
pub open spec fn spun(b: Body, dt: int) -> Body {
    if b.kind.spin_rate_spec() == 0 {
        b
    } else {
        Body {
            kind: b.kind,
            position: b.position,
            velocity: b.velocity,
            orientation: turned(b.orientation as int, spin_increment(b.kind, dt)) as u64,
        }
    }
}

/// Turns one body about the vertical axis for one tick.
pub fn spin_body(body: &Body, dt: i64) -> (r: Body)
    requires
        valid_dt(dt as int),
    ensures
        r == spun(*body, dt as int),
{
    let rate: u64 = body.kind.spin_rate();
    if rate == 0 {
        return *body;
    }
    let elapsed: u64 = dt as u64;
    assert(rate * elapsed <= 1_000_000_000_000) by (nonlinear_arith)
        requires
            rate <= 10_000,
            elapsed <= 100_000_000,
    ;
    let turn: u64 = (rate * elapsed) / 1_000_000;
    let orientation: u64 = (body.orientation % FULL_TURN + turn) % FULL_TURN;
    Body { kind: body.kind, position: body.position, velocity: body.velocity, orientation }
}

} // verus!
