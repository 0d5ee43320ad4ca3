//! Fixed-point simulation of bodies orbiting a fixed central mass.
//!
//! Every physical quantity is an integer count of millionths of its unit:
//! lengths of a world unit, velocities of a world unit per unit time,
//! elapsed times of a unit time, gravitational strengths of a cubed world
//! unit per squared unit time, angles of a radian. A tick is therefore an
//! exact function of its inputs, the same on every machine.
//!
//! * [`gravity`] advances one body around the center: the velocity is
//!   kicked by the inverse-square pull, then the position drifts with the
//!   new velocity.
//! * [`spin`] turns one body about the vertical axis.
//! * [`simulation`] holds the bodies, exactly one of which is the center,
//!   and applies either operation to all of them.
//! * [`laws`] proves what holds of every tick.

pub mod body;
pub mod gravity;
pub mod laws;
pub mod numeric;
pub mod simulation;
pub mod spin;
pub mod vector;
