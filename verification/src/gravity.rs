//! The gravity integrator for one body: inverse-square attraction toward a
//! fixed center, advanced by one semi-implicit Euler step.

use vstd::prelude::*;
use crate::body::{Body, COORD_LIMIT};
use crate::numeric::{floor_sqrt, isqrt, quot, quot_exec};
use crate::vector::{Triple, Vector3};

verus! {

/// How many fixed-point units make one unit of length, time or strength.
pub const SCALE: i64 = 1_000_000;

/// The longest tick that is accepted.
pub const DT_LIMIT: i64 = 100_000_000;

/// The largest gravitational strength that is accepted.
pub const GM_LIMIT: i64 = 10_000_000_000;

/// Below this distance from the center a body is left as it is.
pub const MIN_DISTANCE: i64 = 1_000;

/// Why a tick was refused.
#[derive(Clone, Copy, Debug, PartialEq, Eq, Structural)]
pub enum StepError {
    /// The elapsed time is negative or too long, or the strength is not
    /// positive or too large.
    InvalidConfiguration,
    /// A position or velocity is, or would become, unrepresentable.
    NonFinite,
}

/// The elapsed time of a tick is acceptable.
pub open spec fn valid_dt(dt: int) -> bool {
    0 <= dt <= DT_LIMIT
}

/// The gravitational strength is acceptable.
pub open spec fn valid_gm(gm: int) -> bool {
    0 < gm <= GM_LIMIT
}

/// Elapsed time and strength are both acceptable.
pub open spec fn valid_config(dt: int, gm: int) -> bool {
    valid_dt(dt) && valid_gm(gm)
}

/// The vector from the body to the center.
pub open spec fn offset_of(b: Body, center: Vector3) -> Triple {
    center@.minus(b.position@)
}

/// The distance from the body to the center, rounded down.
pub open spec fn distance_of(b: Body, center: Vector3) -> int {
    floor_sqrt(offset_of(b, center).norm_squared())
}

/// Strength times elapsed time, brought to the scale of a velocity: the
/// factor of the offset in the numerator of a kick.
pub open spec fn strength(dt: int, gm: int) -> int {
    gm * dt * SCALE
}

/// The change of one velocity component over one tick. The offset is
/// divided by the cube of the rounded distance: twice for the inverse
/// square, once to turn the offset into a direction, the same rounded
/// distance each time. The quotient is rounded toward zero.
pub open spec fn kick(k: int, off: int, dist: int) -> int {
    quot(k * off, dist * dist * dist)
}

/// The distance that one velocity component covers in the elapsed time.
pub open spec fn drift(v: int, dt: int) -> int {
    quot(v * dt, SCALE as int)
}

/// The velocity after the pull of the center has acted for `dt`.
pub open spec fn kicked_velocity(b: Body, center: Vector3, dt: int, gm: int) -> Triple {
    let o = offset_of(b, center);
    let d = distance_of(b, center);
    let k = strength(dt, gm);
    Triple {
        x: b.velocity.x + kick(k, o.x, d),
        y: b.velocity.y + kick(k, o.y, d),
        z: b.velocity.z + kick(k, o.z, d),
    }
}

/// The position after moving with velocity `v` for `dt`.
pub open spec fn drifted_position(p: Triple, v: Triple, dt: int) -> Triple {
    Triple { x: p.x + drift(v.x, dt), y: p.y + drift(v.y, dt), z: p.z + drift(v.z, dt) }
}

/// The body is too close to the center for the inverse-square law.
pub open spec fn is_singular(b: Body, center: Vector3) -> bool {
    distance_of(b, center) < MIN_DISTANCE
}

/// One step of a body around a center: the velocity is kicked by the
/// acceleration at the current position, then the position drifts with the
/// new velocity. A body too close to the center is kept as it is; a state
/// that is or becomes unrepresentable is a fault.
pub open spec fn advance_spec(b: Body, center: Vector3, dt: int, gm: int) -> Result<
    Body,
    StepError,
> {
    if !b.in_range() || !center@.within(COORD_LIMIT as int) {
        Err(StepError::NonFinite)
    } else if is_singular(b, center) {
        Ok(b)
    } else {
        let v = kicked_velocity(b, center, dt, gm);
        let p = drifted_position(b.position@, v, dt);
        if !v.within(COORD_LIMIT as int) || !p.within(COORD_LIMIT as int) {
            Err(StepError::NonFinite)
        } else {
            Ok(
                Body {
                    kind: b.kind,
                    position: p.to_vector(),
                    velocity: v.to_vector(),
                    orientation: b.orientation,
                },
            )
        }
    }
}

/// Checks elapsed time and strength.
pub fn check_config(dt: i64, gm: i64) -> (r: Result<(), StepError>)
    ensures
        r is Ok <==> valid_config(dt as int, gm as int),
        r is Err ==> r == Err::<(), StepError>(StepError::InvalidConfiguration),
{
    if 0 <= dt && dt <= DT_LIMIT && 0 < gm && gm <= GM_LIMIT {
        Ok(())
    } else {
        Err(StepError::InvalidConfiguration)
    }
}

fn kick_exec(k: i128, off: i128, dist: i128) -> (r: i128)
    requires
        0 <= k <= 1_000_000_000_000_000_000_000_000,
        -200_000_000_000 <= off <= 200_000_000_000,
        1 <= dist <= 400_000_000_000,
    ensures
        r == kick(k as int, off as int, dist as int),
        -200_000_000_000_000_000_000_000_000_000_000_000 <= r
            <= 200_000_000_000_000_000_000_000_000_000_000_000,
{
    assert(-200_000_000_000_000_000_000_000_000_000_000_000 <= k * off
        <= 200_000_000_000_000_000_000_000_000_000_000_000) by (nonlinear_arith)
        requires
            0 <= k <= 1_000_000_000_000_000_000_000_000,
            -200_000_000_000 <= off <= 200_000_000_000,
    ;
    assert(1 <= dist * dist <= 160_000_000_000_000_000_000_000) by (nonlinear_arith)
        requires
            1 <= dist <= 400_000_000_000,
    ;
    let d2: i128 = dist * dist;
    assert(1 <= d2 * dist <= 64_000_000_000_000_000_000_000_000_000_000_000) by (nonlinear_arith)
        requires
            1 <= dist <= 400_000_000_000,
            1 <= d2 <= 160_000_000_000_000_000_000_000,
    ;
    let d3: i128 = d2 * dist;
    let n: i128 = k * off;
    let r: i128 = quot_exec(n, d3);
    assert(-200_000_000_000_000_000_000_000_000_000_000_000 <= r
        <= 200_000_000_000_000_000_000_000_000_000_000_000) by (nonlinear_arith)
        requires
            r == quot(n as int, d3 as int),
            d3 >= 1,
            -200_000_000_000_000_000_000_000_000_000_000_000 <= n
                <= 200_000_000_000_000_000_000_000_000_000_000_000,
    ;
    r
}

fn drift_exec(v: i128, dt: i128) -> (r: i128)
    requires
        -100_000_000_000 <= v <= 100_000_000_000,
        0 <= dt <= 100_000_000,
    ensures
        r == drift(v as int, dt as int),
        -10_000_000_000_000 <= r <= 10_000_000_000_000,
{
    assert(-10_000_000_000_000_000_000 <= v * dt <= 10_000_000_000_000_000_000)
        by (nonlinear_arith)
        requires
            -100_000_000_000 <= v <= 100_000_000_000,
            0 <= dt <= 100_000_000,
    ;
    quot_exec(v * dt, SCALE as i128)
}

fn fits(a: i128, b: i128, c: i128) -> (r: bool)
    ensures
        r == (Triple { x: a as int, y: b as int, z: c as int }).within(COORD_LIMIT as int),
{
    let m: i128 = COORD_LIMIT as i128;
    -m <= a && a <= m && -m <= b && b <= m && -m <= c && c <= m
}

/// Advances one body by one tick around `center`.
pub fn advance(body: &Body, center: &Vector3, dt: i64, gm: i64) -> (r: Result<Body, StepError>)
    requires
        valid_config(dt as int, gm as int),
    ensures
        r == advance_spec(*body, *center, dt as int, gm as int),
{
    if !body.is_in_range() || !center.is_within(COORD_LIMIT) {
        return Err(StepError::NonFinite);
    }
    let ox: i128 = center.x as i128 - body.position.x as i128;
    let oy: i128 = center.y as i128 - body.position.y as i128;
    let oz: i128 = center.z as i128 - body.position.z as i128;
    assert(0 <= ox * ox <= 40_000_000_000_000_000_000_000 && 0 <= oy * oy
        <= 40_000_000_000_000_000_000_000 && 0 <= oz * oz <= 40_000_000_000_000_000_000_000)
        by (nonlinear_arith)
        requires
            -200_000_000_000 <= ox <= 200_000_000_000,
            -200_000_000_000 <= oy <= 200_000_000_000,
            -200_000_000_000 <= oz <= 200_000_000_000,
    ;
    let d2: i128 = ox * ox + oy * oy + oz * oz;
    let root: u64 = isqrt(d2 as u128);
    assert(root == distance_of(*body, *center));
    if root < MIN_DISTANCE as u64 {
        return Ok(*body);
    }
    assert(root <= 400_000_000_000) by (nonlinear_arith)
        requires
            root * root <= d2,
            d2 <= 120_000_000_000_000_000_000_000,
            root >= 0,
    ;
    let dist: i128 = root as i128;
    assert(0 <= (gm as i128) * (dt as i128) <= 1_000_000_000_000_000_000) by (nonlinear_arith)
        requires
            0 <= dt <= 100_000_000,
            0 < gm <= 10_000_000_000,
    ;
    let k: i128 = (gm as i128) * (dt as i128) * (SCALE as i128);
    let vx: i128 = body.velocity.x as i128 + kick_exec(k, ox, dist);
    let vy: i128 = body.velocity.y as i128 + kick_exec(k, oy, dist);
    let vz: i128 = body.velocity.z as i128 + kick_exec(k, oz, dist);
    if !fits(vx, vy, vz) {
        return Err(StepError::NonFinite);
    }
    let px: i128 = body.position.x as i128 + drift_exec(vx, dt as i128);
    let py: i128 = body.position.y as i128 + drift_exec(vy, dt as i128);
    let pz: i128 = body.position.z as i128 + drift_exec(vz, dt as i128);
    if !fits(px, py, pz) {
        return Err(StepError::NonFinite);
    }
    Ok(
        Body {
            kind: body.kind,
            position: Vector3 { x: px as i64, y: py as i64, z: pz as i64 },
            velocity: Vector3 { x: vx as i64, y: vy as i64, z: vz as i64 },
            orientation: body.orientation,
        },
    )
}

} // verus!
