//! The simulation state: the bodies, exactly one of which is the center,
//! and the two operations that a tick consists of.

use vstd::prelude::*;
use crate::body::Body;
use crate::gravity::{
    advance, advance_spec, check_config, valid_config, valid_dt, StepError, DT_LIMIT,
};
use crate::spin::{spin_body, spun};
use crate::vector::Vector3;

verus! {

/// The body at index `c` is the center and no other body is.
pub open spec fn is_center_at(s: Seq<Body>, c: int) -> bool {
    &&& 0 <= c < s.len()
    &&& s[c].kind.is_center()
    &&& forall|j: int| 0 <= j < s.len() && j != c ==> !(#[trigger] s[j]).kind.is_center()
}

/// Exactly one of the bodies is the center.
pub open spec fn has_single_center(s: Seq<Body>) -> bool {
    exists|c: int| is_center_at(s, c)
}

/// What one tick of gravity makes of the body at index `i`: the center is
/// kept, every other body is advanced around the center's position.
pub open spec fn step_body(s: Seq<Body>, c: int, i: int, dt: int, gm: int) -> Result<
    Body,
    StepError,
> {
    if i == c {
        Ok(s[i])
    } else {
        advance_spec(s[i], s[c].position, dt, gm)
    }
}

/// Some body cannot be advanced.
pub open spec fn step_faults(s: Seq<Body>, c: int, dt: int, gm: int) -> bool {
    exists|i: int| 0 <= i < s.len() && #[trigger] step_body(s, c, i, dt, gm) is Err
}

/// The bodies after one tick of gravity, each advanced on its own.
pub open spec fn stepped(s: Seq<Body>, c: int, dt: int, gm: int) -> Seq<Body> {
    Seq::new(
        s.len(),
        |i: int|
            match step_body(s, c, i, dt, gm) {
                Ok(b) => b,
                Err(_) => s[i],
            },
    )
}

/// The outcome of one tick of gravity: a refusal of the configuration, a
/// fault of some body, or the new bodies.
pub open spec fn step_spec(s: Seq<Body>, c: int, dt: int, gm: int) -> Result<
    Seq<Body>,
    StepError,
> {
    if !valid_config(dt, gm) {
        Err(StepError::InvalidConfiguration)
    } else if step_faults(s, c, dt, gm) {
        Err(StepError::NonFinite)
    } else {
        Ok(stepped(s, c, dt, gm))
    }
}

/// The bodies that a tick of gravity leaves behind: the new ones, or the
/// old ones where the tick is refused.
pub open spec fn state_after_step(s: Seq<Body>, c: int, dt: int, gm: int) -> Seq<Body> {
    match step_spec(s, c, dt, gm) {
        Ok(t) => t,
        Err(_) => s,
    }
}

/// The bodies after one tick of spin.
pub open spec fn spun_all(s: Seq<Body>, dt: int) -> Seq<Body> {
    Seq::new(s.len(), |i: int| spun(s[i], dt))
}

/// Why a set of bodies is no simulation.
#[derive(Clone, Copy, Debug, PartialEq, Eq, Structural)]
pub enum SetupError {
    /// No body is the center.
    NoCenter,
    /// More than one body is the center.
    SeveralCenters,
}

/// The bodies of one simulation, identified by their index.
pub struct Simulation {
    bodies: Vec<Body>,
    center: usize,
}

impl View for Simulation {
    type V = Seq<Body>;

    closed spec fn view(&self) -> Seq<Body> {
        self.bodies@
    }
}

impl Simulation {
    /// The index of the center.
    pub closed spec fn center_index(&self) -> int {
        self.center as int
    }

    /// Exactly one body is the center, and it is the one at `center_index`.
    /// Every simulation that exists is well formed.
    pub open spec fn wf(&self) -> bool {
        is_center_at(self@, self.center_index())
    }

    #[verifier::type_invariant]
    spec fn inv(self) -> bool {
        is_center_at(self.bodies@, self.center as int)
    }

    /// Takes the bodies into a simulation, if exactly one is the center.
    pub fn new(bodies: Vec<Body>) -> (r: Result<Simulation, SetupError>)
        ensures
            r is Ok <==> has_single_center(bodies@),
            match r {
                Ok(sim) => sim.wf() && sim@ == bodies@,
                Err(SetupError::NoCenter) => forall|j: int|
                    0 <= j < bodies@.len() ==> !(#[trigger] bodies@[j]).kind.is_center(),
                Err(SetupError::SeveralCenters) => exists|i: int, j: int|
                    0 <= i < j < bodies@.len() && (#[trigger] bodies@[i]).kind.is_center() && (
                    #[trigger] bodies@[j]).kind.is_center(),
            },
    {
        let n: usize = bodies.len();
        let mut found: Option<usize> = None;
        let mut i: usize = 0;
        while i < n
            invariant
                i <= n,
                n == bodies@.len(),
                match found {
                    None => forall|j: int|
                        0 <= j < i ==> !(#[trigger] bodies@[j]).kind.is_center(),
                    Some(c) => c < i && bodies@[c as int].kind.is_center() && forall|j: int|
                        0 <= j < i && j != c ==> !(#[trigger] bodies@[j]).kind.is_center(),
                },
            decreases n - i,
        {
            if bodies[i].kind.is_center() {
                match found {
                    Some(c) => {
                        assert(bodies@[c as int].kind.is_center() && bodies@[i as int].kind.is_center());
                        assert forall|k: int| !is_center_at(bodies@, k) by {
                            if k == c {
                                assert(bodies@[i as int].kind.is_center());
                            } else {
                                assert(bodies@[c as int].kind.is_center());
                            }
                        }
                        return Err(SetupError::SeveralCenters);
                    },
                    None => {
                        found = Some(i);
                    },
                }
            }
            i += 1;
        }
        match found {
            Some(c) => {
                let sim = Simulation { bodies, center: c };
                assert(is_center_at(sim@, c as int));
                Ok(sim)
            },
            None => {
                assert forall|k: int| !is_center_at(bodies@, k) by {
                    if 0 <= k < bodies@.len() {
                        assert(!bodies@[k].kind.is_center());
                    }
                }
                Err(SetupError::NoCenter)
            },
        }
    }

    /// The number of bodies.
    pub fn len(&self) -> (n: usize)
        ensures
            n == self@.len(),
    {
        self.bodies.len()
    }

    /// The body at index `i`, if there is one.
    pub fn get(&self, i: usize) -> (r: Option<Body>)
        ensures
            r == (if i < self@.len() {
                Some(self@[i as int])
            } else {
                None
            }),
    {
        if i < self.bodies.len() {
            Some(self.bodies[i])
        } else {
            None
        }
    }

    /// The index of the center.
    pub fn center(&self) -> (c: usize)
        ensures
            self.wf(),
            c == self.center_index(),
    {
        proof {
            use_type_invariant(self);
        }
        self.center
    }

    /// The position of the center, around which the others move.
    pub fn center_position(&self) -> (p: Vector3)
        ensures
            self.wf(),
            p == self@[self.center_index()].position,
    {
        proof {
            use_type_invariant(self);
        }
        self.bodies[self.center].position
    }

    /// Advances every body but the center by one tick of gravity. Either
    /// every body moves or, where the tick is refused, none does.
    pub fn step(&mut self, dt: i64, gm: i64) -> (r: Result<(), StepError>)
        ensures
            old(self).wf(),
            final(self).wf(),
            final(self).center_index() == old(self).center_index(),
            final(self)@ == state_after_step(
                old(self)@,
                old(self).center_index(),
                dt as int,
                gm as int,
            ),
            match step_spec(old(self)@, old(self).center_index(), dt as int, gm as int) {
                Ok(_) => r is Ok,
                Err(e) => r == Err::<(), StepError>(e),
            },
    {
        proof {
            use_type_invariant(&*self);
        }
        if check_config(dt, gm).is_err() {
            return Err(StepError::InvalidConfiguration);
        }
        let center: Vector3 = self.bodies[self.center].position;
        let n: usize = self.bodies.len();
        let mut next: Vec<Body> = Vec::new();
        let mut i: usize = 0;
        while i < n
            invariant
                i <= n,
                *self == *old(self),
                self.wf(),
                n == self.bodies@.len(),
                self.center < n,
                center == self.bodies@[self.center as int].position,
                valid_config(dt as int, gm as int),
                next@.len() == i,
                forall|j: int|
                    0 <= j < i ==> (#[trigger] step_body(
                        self.bodies@,
                        self.center as int,
                        j,
                        dt as int,
                        gm as int,
                    )) == Ok::<Body, StepError>(next@[j]),
                forall|j: int| 0 <= j < i ==> (#[trigger] next@[j]).kind == self.bodies@[j].kind,
            decreases n - i,
        {
            if i == self.center {
                next.push(self.bodies[i]);
            } else {
                match advance(&self.bodies[i], &center, dt, gm) {
                    Ok(b) => {
                        next.push(b);
                    },
                    Err(e) => {
                        assert(step_body(
                            self.bodies@,
                            self.center as int,
                            i as int,
                            dt as int,
                            gm as int,
                        ) is Err);
                        return Err(e);
                    },
                }
            }
            i += 1;
        }
        proof {
            let s = self.bodies@;
            let c = self.center as int;
            assert(!step_faults(s, c, dt as int, gm as int));
            assert(next@ =~= stepped(s, c, dt as int, gm as int));
            assert(is_center_at(next@, c));
        }
        self.bodies = next;
        Ok(())
    }

    /// Turns every spinning body by one tick. Positions and velocities are
    /// kept; a negative or too long `dt` is refused and nothing turns.
    pub fn spin(&mut self, dt: i64) -> (r: Result<(), StepError>)
        ensures
            old(self).wf(),
            final(self).wf(),
            final(self).center_index() == old(self).center_index(),
            valid_dt(dt as int) ==> r is Ok && final(self)@ == spun_all(old(self)@, dt as int),
            !valid_dt(dt as int) ==> r == Err::<(), StepError>(StepError::InvalidConfiguration)
                && final(self)@ == old(self)@,
    {
        proof {
            use_type_invariant(&*self);
        }
        if dt < 0 || dt > DT_LIMIT {
            return Err(StepError::InvalidConfiguration);
        }
        let n: usize = self.bodies.len();
        let mut next: Vec<Body> = Vec::new();
        let mut i: usize = 0;
        while i < n
            invariant
                i <= n,
                *self == *old(self),
                self.wf(),
                n == self.bodies@.len(),
                valid_dt(dt as int),
                next@.len() == i,
                forall|j: int| 0 <= j < i ==> (#[trigger] next@[j]) == spun(self.bodies@[j], dt as int),
            decreases n - i,
        {
            next.push(spin_body(&self.bodies[i], dt));
            i += 1;
        }
        proof {
            assert(next@ =~= spun_all(self.bodies@, dt as int));
            assert(is_center_at(next@, self.center as int));
        }
        self.bodies = next;
        Ok(())
    }
}

} // verus!
