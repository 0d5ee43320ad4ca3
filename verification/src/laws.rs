//! Laws of the simulation, proved from the definitions of a tick.

use vstd::prelude::*;
use crate::body::{Body, COORD_LIMIT, FULL_TURN};
use crate::gravity::{
    advance_spec, distance_of, drift, drifted_position, is_singular, kick, kicked_velocity,
    offset_of, strength, valid_dt, SCALE,
};
use crate::numeric::{lemma_floor_sqrt_unique, lemma_quot_rounds_toward_zero, quot};
use crate::simulation::{is_center_at, state_after_step, step_body, step_spec};
use crate::spin::{spin_increment, spun, turned};
use crate::vector::{Triple, Vector3};
use vstd::math::abs;

verus! {

/// A body that sits exactly on the center is kept as it is, whatever the
/// elapsed time and the strength: no division by a vanishing distance
/// takes place.
pub proof fn lemma_body_at_center_is_kept(b: Body, center: Vector3, dt: int, gm: int)
    requires
        b.in_range(),
        b.position == center,
    ensures
        advance_spec(b, center, dt, gm) == Ok::<Body, crate::gravity::StepError>(b),
{
    assert(0int * 0int == 0 && (0int + 1) * (0int + 1) == 1) by (nonlinear_arith);
    lemma_floor_sqrt_unique(0, 0);
    assert(offset_of(b, center).norm_squared() == 0);
}

/// Whatever a step hands back is representable, and is the same body:
/// kind and orientation are those it had.
pub proof fn lemma_advance_stays_in_range(b: Body, center: Vector3, dt: int, gm: int)
    ensures
        match advance_spec(b, center, dt, gm) {
            Ok(a) => a.in_range() && a.kind == b.kind && a.orientation == b.orientation,
            Err(_) => true,
        },
{
}

/// A step over no elapsed time moves nothing: a body that can be advanced
/// is handed back unchanged.
pub proof fn lemma_zero_dt_keeps_body(b: Body, center: Vector3, gm: int)
    ensures
        match advance_spec(b, center, 0, gm) {
            Ok(a) => a == b,
            Err(_) => true,
        },
{
    if b.in_range() && center@.within(COORD_LIMIT as int) && !is_singular(b, center) {
        let o = offset_of(b, center);
        let d = distance_of(b, center);
        assert(strength(0, gm) == 0) by (nonlinear_arith);
        assert(d * d * d > 0) by (nonlinear_arith)
            requires
                d >= 1000,
        ;
        lemma_quot_of_zero(o.x, d * d * d);
        lemma_quot_of_zero(o.y, d * d * d);
        lemma_quot_of_zero(o.z, d * d * d);
        let v = kicked_velocity(b, center, 0, gm);
        assert(v == b.velocity@);
        lemma_quot_of_zero(v.x, SCALE as int);
        lemma_quot_of_zero(v.y, SCALE as int);
        lemma_quot_of_zero(v.z, SCALE as int);
        assert(drift(v.x, 0) == 0);
        assert(drifted_position(b.position@, v, 0) == b.position@);
    }
}

proof fn lemma_quot_of_zero(a: int, d: int)
    requires
        d > 0,
    ensures
        quot(0 * a, d) == 0,
        quot(a * 0, d) == 0,
{
    assert(0 * a == 0 && a * 0 == 0) by (nonlinear_arith);
    assert(0int / d == 0) by (nonlinear_arith)
        requires
            d > 0,
    ;
}

/// A tick of no elapsed time leaves every position and velocity, indeed
/// every body, as it was.
pub proof fn lemma_zero_dt_keeps_state(s: Seq<Body>, c: int, gm: int)
    requires
        is_center_at(s, c),
    ensures
        state_after_step(s, c, 0, gm) == s,
{
    match step_spec(s, c, 0, gm) {
        Ok(t) => {
            assert forall|i: int| 0 <= i < s.len() implies t[i] == s[i] by {
                if i != c {
                    lemma_zero_dt_keeps_body(s[i], s[c].position, gm);
                }
            }
            assert(t =~= s);
        },
        Err(_) => {},
    }
}

/// The angular momentum of a body about the center: the cross product of
/// its place relative to the center with its velocity.
pub open spec fn angular_momentum(b: Body, center: Vector3) -> Triple {
    b.position@.minus(center@).cross(b.velocity@)
}

proof fn lemma_rounded_parallel(a1: int, a2: int, k: int, q1: int, q2: int, d: int)
    requires
        d > 0,
        -d < k * a1 - q1 * d < d,
        -d < k * a2 - q2 * d < d,
    ensures
        -(abs(a1) + abs(a2)) <= a1 * q2 - a2 * q1 <= abs(a1) + abs(a2),
{
    let r1 = k * a1 - q1 * d;
    let r2 = k * a2 - q2 * d;
    let x = a1 * q2 - a2 * q1;
    let m = (abs(a1) + abs(a2)) as int;
    assert(x * d == a2 * r1 - a1 * r2) by (nonlinear_arith)
        requires
            r1 == k * a1 - q1 * d,
            r2 == k * a2 - q2 * d,
            x == a1 * q2 - a2 * q1,
    ;
    assert(-(abs(a2) * (d - 1)) <= a2 * r1 <= abs(a2) * (d - 1)) by (nonlinear_arith)
        requires
            -(d - 1) <= r1 <= d - 1,
            d > 0,
    ;
    assert(-(abs(a1) * (d - 1)) <= a1 * r2 <= abs(a1) * (d - 1)) by (nonlinear_arith)
        requires
            -(d - 1) <= r2 <= d - 1,
            d > 0,
    ;
    assert(abs(a1) * (d - 1) + abs(a2) * (d - 1) == m * (d - 1)) by (nonlinear_arith)
        requires
            m == abs(a1) + abs(a2),
    ;
    assert(-m <= x <= m) by (nonlinear_arith)
        requires
            -(m * (d - 1)) <= x * d <= m * (d - 1),
            d > 0,
            m >= 0,
    ;
}

proof fn lemma_momentum_component(
    py: int,
    pz: int,
    vy: int,
    vz: int,
    dvy: int,
    dvz: int,
    dry: int,
    drz: int,
    bk: int,
    bd: int,
)
    by (nonlinear_arith)
    requires
        -bk <= py * dvz - pz * dvy <= bk,
        -bd <= (vy + dvy) * drz - (vz + dvz) * dry <= bd,
    ensures
        -(bk + bd) <= ((py + dry) * (vz + dvz) - (pz + drz) * (vy + dvy)) - (py * vz - pz * vy)
            <= bk + bd,
{
}

proof fn lemma_component_within_rounding(
    py: int,
    pz: int,
    vy: int,
    vz: int,
    k: int,
    d3: int,
    dt: int,
)
    requires
        d3 > 0,
    ensures
        ({
            let dvy = quot(k * (-py), d3);
            let dvz = quot(k * (-pz), d3);
            let wy = vy + dvy;
            let wz = vz + dvz;
            let dry = drift(wy, dt);
            let drz = drift(wz, dt);
            abs(((py + dry) * wz - (pz + drz) * wy) - (py * vz - pz * vy)) <= abs(py) + abs(pz)
                + abs(wy) + abs(wz)
        }),
{
    let oy = -py;
    let oz = -pz;
    let dvy = quot(k * oy, d3);
    let dvz = quot(k * oz, d3);
    let wy = vy + dvy;
    let wz = vz + dvz;
    let dry = drift(wy, dt);
    let drz = drift(wz, dt);
    lemma_quot_rounds_toward_zero(k * oy, d3);
    lemma_quot_rounds_toward_zero(k * oz, d3);
    lemma_rounded_parallel(oy, oz, k, dvy, dvz, d3);
    assert(py * dvz - pz * dvy == -(oy * dvz - oz * dvy)) by (nonlinear_arith)
        requires
            oy == -py,
            oz == -pz,
    ;
    lemma_quot_rounds_toward_zero(wy * dt, SCALE as int);
    lemma_quot_rounds_toward_zero(wz * dt, SCALE as int);
    assert(dt * wy == wy * dt && dt * wz == wz * dt) by (nonlinear_arith);
    lemma_rounded_parallel(wy, wz, dt, dry, drz, SCALE as int);
    lemma_momentum_component(
        py,
        pz,
        vy,
        vz,
        dvy,
        dvz,
        dry,
        drz,
        (abs(py) + abs(pz)) as int,
        (abs(wy) + abs(wz)) as int,
    );
}

/// The pull is directed exactly at the center, so a step changes the
/// angular momentum about the center only by what rounding the two
/// quotients to whole units adds: each component moves by no more than the
/// sum of the magnitudes of the other two components of the place relative
/// to the center and of the new velocity. Against the angular momentum
/// itself, which is a product of a place and a velocity, that is one part
/// in a million of either factor.
pub proof fn lemma_angular_momentum_within_rounding(b: Body, center: Vector3, dt: int, gm: int)
    requires
        advance_spec(b, center, dt, gm) is Ok,
    ensures
        ({
            let a = advance_spec(b, center, dt, gm)->Ok_0;
            let before = angular_momentum(b, center);
            let after = angular_momentum(a, center);
            let p = b.position@.minus(center@);
            let v = a.velocity@;
            &&& abs(after.x - before.x) <= abs(p.y) + abs(p.z) + abs(v.y) + abs(v.z)
            &&& abs(after.y - before.y) <= abs(p.z) + abs(p.x) + abs(v.z) + abs(v.x)
            &&& abs(after.z - before.z) <= abs(p.x) + abs(p.y) + abs(v.x) + abs(v.y)
        }),
{
    if !is_singular(b, center) {
        let d = distance_of(b, center);
        let d3 = d * d * d;
        assert(d3 > 0) by (nonlinear_arith)
            requires
                d >= 1000,
                d3 == d * d * d,
        ;
        let k = strength(dt, gm);
        let p = b.position@.minus(center@);
        let o = offset_of(b, center);
        assert(o.x == -p.x && o.y == -p.y && o.z == -p.z);
        let u = b.velocity@;
        lemma_component_within_rounding(p.y, p.z, u.y, u.z, k, d3, dt);
        lemma_component_within_rounding(p.z, p.x, u.z, u.x, k, d3, dt);
        lemma_component_within_rounding(p.x, p.y, u.x, u.y, k, d3, dt);
    }
}

/// The orientation after `n` ticks that each turn by `turn`.
pub open spec fn turned_times(angle: int, turn: int, n: nat) -> int
    decreases n,
{
    if n == 0 {
        angle
    } else {
        turned(turned_times(angle, turn, (n - 1) as nat), turn)
    }
}

/// Equal ticks of spin add up: after `n` of them the orientation is the
/// first one turned by `n` times the turn of one tick, within one full
/// turn.
pub proof fn lemma_turns_add_up(angle: int, turn: int, n: nat)
    requires
        0 <= angle < FULL_TURN,
    ensures
        turned_times(angle, turn, n) == (angle + n * turn) % (FULL_TURN as int),
    decreases n,
{
    if n == 0 {
        assert(angle + 0 * turn == angle) by (nonlinear_arith);
    } else {
        let m = (n - 1) as nat;
        lemma_turns_add_up(angle, turn, m);
        assert(m * turn + turn == n * turn) by (nonlinear_arith)
            requires
                m == n - 1,
        ;
        let y = angle + m * turn;
        assert(((y % 6_283_185) % 6_283_185 + turn) % 6_283_185 == (y + turn) % 6_283_185);
    }
}

/// Spin and gravity do not meet: a spin keeps place, velocity and kind,
/// and turns the orientation by the turn of one tick.
pub proof fn lemma_spin_keeps_motion(b: Body, dt: int)
    ensures
        spun(b, dt).position == b.position,
        spun(b, dt).velocity == b.velocity,
        spun(b, dt).kind == b.kind,
        b.kind.spin_rate_spec() != 0 && valid_dt(dt) ==> spun(b, dt).orientation == turned(
            b.orientation as int,
            spin_increment(b.kind, dt),
        ),
{
    if b.kind.spin_rate_spec() != 0 && valid_dt(dt) {
        let t = spin_increment(b.kind, dt);
        let r = b.kind.spin_rate_spec();
        assert(0 <= r * dt) by (nonlinear_arith)
            requires
                0 <= r,
                0 <= dt,
        ;
        assert(t >= 0);
    }
}

/// A tick of gravity keeps the number of bodies, the kind and the
/// orientation of each, and the center as a whole, whether it is carried
/// out or refused.
pub proof fn lemma_step_keeps_identity(s: Seq<Body>, c: int, dt: int, gm: int)
    requires
        is_center_at(s, c),
    ensures
        state_after_step(s, c, dt, gm).len() == s.len(),
        state_after_step(s, c, dt, gm)[c] == s[c],
        is_center_at(state_after_step(s, c, dt, gm), c),
        forall|i: int|
            0 <= i < s.len() ==> (#[trigger] state_after_step(s, c, dt, gm)[i]).kind == s[i].kind
                && state_after_step(s, c, dt, gm)[i].orientation == s[i].orientation,
{
    let t = state_after_step(s, c, dt, gm);
    assert forall|i: int| 0 <= i < s.len() implies (#[trigger] t[i]).kind == s[i].kind
        && t[i].orientation == s[i].orientation by {
        if i != c {
            lemma_advance_stays_in_range(s[i], s[c].position, dt, gm);
        }
    }
}

/// Every body that a tick of gravity has moved is representable: a tick
/// that is carried out leaves no position or velocity out of range.
pub proof fn lemma_step_stays_in_range(s: Seq<Body>, c: int, dt: int, gm: int, i: int)
    requires
        is_center_at(s, c),
        step_spec(s, c, dt, gm) is Ok,
        0 <= i < s.len(),
        i != c,
    ensures
        state_after_step(s, c, dt, gm)[i].in_range(),
{
    lemma_advance_stays_in_range(s[i], s[c].position, dt, gm);
    assert(!(step_body(s, c, i, dt, gm) is Err));
}

/// A body that sits exactly on the center does not stop a tick and is not
/// moved by it.
pub proof fn lemma_step_keeps_body_at_center(s: Seq<Body>, c: int, dt: int, gm: int, i: int)
    requires
        is_center_at(s, c),
        0 <= i < s.len(),
        s[i].in_range(),
        s[i].position == s[c].position,
    ensures
        step_body(s, c, i, dt, gm) == Ok::<Body, crate::gravity::StepError>(s[i]),
        state_after_step(s, c, dt, gm)[i] == s[i],
{
    if i != c {
        lemma_body_at_center_is_kept(s[i], s[c].position, dt, gm);
    }
}

proof fn lemma_quot_doubles(n: int, d: int)
    requires
        d > 0,
    ensures
        abs(quot(2 * n, d) - 2 * quot(n, d)) <= 1,
{
    let q = quot(n, d);
    let p = quot(2 * n, d);
    lemma_quot_rounds_toward_zero(n, d);
    lemma_quot_rounds_toward_zero(2 * n, d);
    assert(-1 <= p - 2 * q <= 1) by (nonlinear_arith)
        requires
            d > 0,
            -d < n - q * d < d,
            -d < 2 * n - p * d < d,
            n >= 0 ==> 0 <= n - q * d && 0 <= 2 * n - p * d,
            n <= 0 ==> n - q * d <= 0 && 2 * n - p * d <= 0,
    ;
}

/// Kick and drift follow the elapsed time: over twice the time the
/// velocity changes, and the body moves, by twice as much, up to one unit
/// of rounding. Nothing is added per tick regardless of its length.
pub proof fn lemma_kick_and_drift_follow_elapsed_time(
    dt: int,
    gm: int,
    off: int,
    dist: int,
    v: int,
)
    requires
        dist > 0,
    ensures
        abs(kick(strength(2 * dt, gm), off, dist) - 2 * kick(strength(dt, gm), off, dist)) <= 1,
        abs(drift(v, 2 * dt) - 2 * drift(v, dt)) <= 1,
{
    let d3 = dist * dist * dist;
    assert(d3 > 0) by (nonlinear_arith)
        requires
            dist > 0,
            d3 == dist * dist * dist,
    ;
    assert(strength(2 * dt, gm) * off == 2 * (strength(dt, gm) * off)) by (nonlinear_arith)
        requires
            strength(2 * dt, gm) == gm * (2 * dt) * SCALE,
            strength(dt, gm) == gm * dt * SCALE,
    ;
    lemma_quot_doubles(strength(dt, gm) * off, d3);
    assert(v * (2 * dt) == 2 * (v * dt)) by (nonlinear_arith);
    lemma_quot_doubles(v * dt, SCALE as int);
}

/// The center of a set of bodies is found by the bodies alone, so the
/// outcome of a tick is a function of the bodies, the elapsed time and the
/// strength: equal states and equal ticks give equal states, every time.
pub proof fn lemma_step_is_determined_by_the_bodies(
    s: Seq<Body>,
    c1: int,
    c2: int,
    dt: int,
    gm: int,
)
    requires
        is_center_at(s, c1),
        is_center_at(s, c2),
    ensures
        c1 == c2,
        step_spec(s, c1, dt, gm) == step_spec(s, c2, dt, gm),
        state_after_step(s, c1, dt, gm) == state_after_step(s, c2, dt, gm),
{
    if c1 != c2 {
        assert(!s[c1].kind.is_center());
    }
}

} // verus!
