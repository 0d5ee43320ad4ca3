use solar_system::body::{Body, BodyKind, COORD_LIMIT, FULL_TURN};
use solar_system::gravity::{StepError, DT_LIMIT, SCALE};
use solar_system::simulation::{SetupError, Simulation};
use solar_system::spin::spin_body;
use solar_system::vector::Vector3;

const ONE: i64 = SCALE;

fn sun() -> Body {
    Body::new(BodyKind::Sun, Vector3::zero(), Vector3::zero())
}

fn at(kind: BodyKind, x: i64, vz: i64) -> Body {
    Body::new(kind, Vector3::new(x * ONE, 0, 0), Vector3::new(0, 0, vz * ONE))
}

fn system() -> Simulation {
    Simulation::new(vec![
        at(BodyKind::Mercury, 10, 10),
        sun(),
        at(BodyKind::Venus, 20, 7),
        at(BodyKind::Earth, 30, 6),
        at(BodyKind::Mars, 40, 5),
    ])
    .unwrap()
}

fn snapshot(sim: &Simulation) -> Vec<Body> {
    let mut out = Vec::new();
    for i in 0..sim.len() {
        out.push(sim.get(i).unwrap());
    }
    out
}

#[test]
fn kind_table() {
    assert_eq!(BodyKind::Sun.spin_rate(), 0);
    assert_eq!(BodyKind::Mercury.spin_rate(), 10_000);
    assert_eq!(BodyKind::Venus.spin_rate(), 5_000);
    assert_eq!(BodyKind::Earth.spin_rate(), 3_000);
    assert_eq!(BodyKind::Mars.spin_rate(), 2_000);
    assert_eq!(BodyKind::Sun.radius(), 5_000_000);
    assert_eq!(BodyKind::Mercury.radius(), 1_000_000);
    assert_eq!(BodyKind::Venus.radius(), 2_500_000);
    assert_eq!(BodyKind::Earth.radius(), 3_000_000);
    assert_eq!(BodyKind::Mars.radius(), 2_000_000);
    assert!(BodyKind::Sun.is_center());
    assert!(!BodyKind::Mars.is_center());
    assert_eq!(at(BodyKind::Venus, 1, 1).spin_rate(), 5_000);
}

#[test]
fn exactly_one_center_is_required() {
    assert!(matches!(Simulation::new(vec![]), Err(SetupError::NoCenter)));
    assert!(matches!(
        Simulation::new(vec![at(BodyKind::Earth, 1, 1), at(BodyKind::Mars, 2, 1)]),
        Err(SetupError::NoCenter)
    ));
    assert!(matches!(
        Simulation::new(vec![sun(), at(BodyKind::Earth, 1, 1), sun()]),
        Err(SetupError::SeveralCenters)
    ));
    let sim = system();
    assert_eq!(sim.len(), 5);
    assert_eq!(sim.center(), 1);
    assert_eq!(sim.center_position(), Vector3::zero());
    assert_eq!(sim.get(3), Some(at(BodyKind::Earth, 30, 6)));
    assert_eq!(sim.get(5), None);
}

#[test]
fn step_moves_every_planet_and_not_the_center() {
    let mut sim = system();
    assert_eq!(sim.step(ONE, 10 * ONE), Ok(()));
    let after = snapshot(&sim);
    assert_eq!(after[1], sun());
    // Mercury: distance 10, kick -0.1
    assert_eq!(after[0].velocity, Vector3::new(-100_000, 0, 10 * ONE));
    assert_eq!(after[0].position, Vector3::new(9_900_000, 0, 10 * ONE));
    // Venus: distance 20, kick -10/400 = -0.025
    assert_eq!(after[2].velocity, Vector3::new(-25_000, 0, 7 * ONE));
    assert_eq!(after[2].position, Vector3::new(19_975_000, 0, 7 * ONE));
    // Earth: distance 30, kick -10/900 = -0.011111
    assert_eq!(after[3].velocity, Vector3::new(-11_111, 0, 6 * ONE));
    assert_eq!(after[3].position, Vector3::new(29_988_889, 0, 6 * ONE));
    // Mars: distance 40, kick -10/1600 = -0.00625
    assert_eq!(after[4].velocity, Vector3::new(-6_250, 0, 5 * ONE));
    assert_eq!(after[4].position, Vector3::new(39_993_750, 0, 5 * ONE));
    for (i, b) in after.iter().enumerate() {
        assert_eq!(b.kind, snapshot(&system())[i].kind);
        assert_eq!(b.orientation, 0);
    }
}

#[test]
fn step_with_zero_dt_changes_nothing() {
    let mut sim = system();
    let before = snapshot(&sim);
    assert_eq!(sim.step(0, 10 * ONE), Ok(()));
    assert_eq!(snapshot(&sim), before);
}

#[test]
fn step_is_deterministic() {
    let dts: [i64; 6] = [16_667, 16_667, 33_333, 1, 0, 250_000];
    let mut a = system();
    let mut b = system();
    let mut trail_a = Vec::new();
    let mut trail_b = Vec::new();
    for dt in dts {
        assert_eq!(a.step(dt, 600 * ONE), Ok(()));
        trail_a.push(snapshot(&a));
    }
    for dt in dts {
        assert_eq!(b.step(dt, 600 * ONE), Ok(()));
        trail_b.push(snapshot(&b));
    }
    assert_eq!(trail_a, trail_b);
    assert_ne!(trail_a[0], snapshot(&system()));
}

#[test]
fn step_refuses_a_bad_configuration() {
    let mut sim = system();
    let before = snapshot(&sim);
    assert_eq!(sim.step(-1, 10 * ONE), Err(StepError::InvalidConfiguration));
    assert_eq!(sim.step(DT_LIMIT + 1, 10 * ONE), Err(StepError::InvalidConfiguration));
    assert_eq!(sim.step(ONE, 0), Err(StepError::InvalidConfiguration));
    assert_eq!(sim.step(ONE, -10 * ONE), Err(StepError::InvalidConfiguration));
    assert_eq!(snapshot(&sim), before);
}

#[test]
fn a_fault_of_one_body_stops_the_whole_tick() {
    let runaway = Body::new(
        BodyKind::Mars,
        Vector3::new(COORD_LIMIT, 0, 0),
        Vector3::new(COORD_LIMIT, 0, 0),
    );
    let mut sim = Simulation::new(vec![sun(), at(BodyKind::Earth, 30, 6), runaway]).unwrap();
    let before = snapshot(&sim);
    assert_eq!(sim.step(ONE, 10 * ONE), Err(StepError::NonFinite));
    assert_eq!(snapshot(&sim), before);
}

#[test]
fn a_planet_on_the_center_survives_a_step() {
    let stuck = Body::new(BodyKind::Venus, Vector3::zero(), Vector3::new(0, ONE, 0));
    let mut sim = Simulation::new(vec![sun(), stuck, at(BodyKind::Earth, 30, 6)]).unwrap();
    assert_eq!(sim.step(ONE, 10 * ONE), Ok(()));
    assert_eq!(sim.get(1), Some(stuck));
    assert!(sim.get(1).unwrap().is_in_range());
    assert_eq!(sim.get(2).unwrap().position, Vector3::new(29_988_889, 0, 6 * ONE));
}

#[test]
fn spin_scenario() {
    let mut sim = system();
    for _ in 0..100 {
        assert_eq!(sim.spin(ONE), Ok(()));
        assert_eq!(sim.step(ONE / 100, 10 * ONE), Ok(()));
    }
    // Mercury turns 0.01 radian per tick: one radian after a hundred
    assert_eq!(sim.get(0).unwrap().orientation, 1_000_000);
    assert_eq!(sim.get(1).unwrap().orientation, 0);
    assert_eq!(sim.get(2).unwrap().orientation, 500_000);
    assert_eq!(sim.get(3).unwrap().orientation, 300_000);
    assert_eq!(sim.get(4).unwrap().orientation, 200_000);
}

#[test]
fn spin_leaves_the_motion_alone() {
    let mut sim = system();
    let before = snapshot(&sim);
    assert_eq!(sim.spin(ONE), Ok(()));
    let after = snapshot(&sim);
    for i in 0..before.len() {
        assert_eq!(after[i].position, before[i].position);
        assert_eq!(after[i].velocity, before[i].velocity);
        assert_eq!(after[i].kind, before[i].kind);
    }
    assert_eq!(after[0].orientation, 10_000);
    assert_eq!(after[1], before[1]);
}

#[test]
fn spin_scales_with_the_elapsed_time() {
    let b = at(BodyKind::Earth, 30, 6);
    assert_eq!(spin_body(&b, ONE / 2).orientation, 1_500);
    assert_eq!(spin_body(&b, 0).orientation, 0);
    assert_eq!(spin_body(&b, 333).orientation, 0);
    assert_eq!(spin_body(&b, 334).orientation, 1);
}

#[test]
fn spin_wraps_after_a_full_turn() {
    let mut b = at(BodyKind::Mercury, 10, 10);
    b.orientation = FULL_TURN - 4_000;
    let turned = spin_body(&b, ONE);
    assert_eq!(turned.orientation, 6_000);
    let mut c = sun();
    c.orientation = FULL_TURN + 5;
    assert_eq!(spin_body(&c, ONE), c);
}

#[test]
fn spin_refuses_a_bad_dt() {
    let mut sim = system();
    let before = snapshot(&sim);
    assert_eq!(sim.spin(-1), Err(StepError::InvalidConfiguration));
    assert_eq!(sim.spin(DT_LIMIT + 1), Err(StepError::InvalidConfiguration));
    assert_eq!(snapshot(&sim), before);
    assert_eq!(sim.spin(DT_LIMIT), Ok(()));
    // Mercury: 0.01 * 100 = 1 radian
    assert_eq!(sim.get(0).unwrap().orientation, 1_000_000);
}
