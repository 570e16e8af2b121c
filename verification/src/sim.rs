//! A projectile simulation: the one consumer the tuple algebra must serve.
//!
//! The state is a projectile (position and velocity) in an environment
//! (gravity and wind). Each tick moves the position by the velocity and
//! folds gravity and wind into the velocity. The host drives the loop and
//! prints positions; the state and the step live here.

use vstd::prelude::*;

use crate::fixed::Fixed;
use crate::fixed::fits_i64;
use crate::tuple::Tuple;

verus! {

struct Projectile {
    r: Tuple,
    v: Tuple,
}

struct Environment {
    gravity: Tuple,
    wind: Tuple,
}

/// A projectile falling through gravity and wind.
pub struct Simulation {
    projectile: Projectile,
    env: Environment,
}

/// Whether two tuples can be added component-wise without overflow.
pub open spec fn can_add(a: Tuple, b: Tuple) -> bool {
    &&& fits_i64(a.x.units + b.x.units)
    &&& fits_i64(a.y.units + b.y.units)
    &&& fits_i64(a.z.units + b.z.units)
    &&& fits_i64(a.w.units + b.w.units)
}

/// The component-wise sum of two tuples, as a value.
pub open spec fn tuple_sum(a: Tuple, b: Tuple) -> Tuple {
    Tuple {
        x: Fixed { units: (a.x.units + b.x.units) as i64 },
        y: Fixed { units: (a.y.units + b.y.units) as i64 },
        z: Fixed { units: (a.z.units + b.z.units) as i64 },
        w: Fixed { units: (a.w.units + b.w.units) as i64 },
    }
}

impl Simulation {
    /// The projectile's position.
    pub closed spec fn position_spec(self) -> Tuple {
        self.projectile.r
    }

    /// The projectile's velocity.
    pub closed spec fn velocity_spec(self) -> Tuple {
        self.projectile.v
    }

    /// The constant gravity vector.
    pub closed spec fn gravity_spec(self) -> Tuple {
        self.env.gravity
    }

    /// The constant wind vector.
    pub closed spec fn wind_spec(self) -> Tuple {
        self.env.wind
    }

    /// A simulation starting at position `r` with velocity `v`: gravity
    /// pulls down along `y` and wind pushes back along `x`.
    pub fn new(r: Tuple, v: Tuple, gravity: Fixed, wind: Fixed) -> (s: Simulation)
        requires
            gravity.units != i64::MIN,
            wind.units != i64::MIN,
        ensures
            s.position_spec() == r,
            s.velocity_spec() == v,
            s.gravity_spec().x.units == 0 && s.gravity_spec().y.units == -gravity.units
                && s.gravity_spec().z.units == 0 && s.gravity_spec().w.units == 0,
            s.wind_spec().x.units == -wind.units && s.wind_spec().y.units == 0
                && s.wind_spec().z.units == 0 && s.wind_spec().w.units == 0,
    {
        let env = Environment {
            gravity: Tuple::vec(Fixed::zero(), gravity.neg(), Fixed::zero()),
            wind: Tuple::vec(wind.neg(), Fixed::zero(), Fixed::zero()),
        };
        let projectile = Projectile { r, v };
        Simulation { projectile, env }
    }

    /// Whether the projectile is still above the ground: the loop goes on
    /// exactly while the position's `y` is positive.
    pub fn active(&self) -> (r: bool)
        ensures
            r == (self.position_spec().y.units > 0),
    {
        self.projectile.r.y.units > 0
    }

    /// The position, for the host to report.
    pub fn position(&self) -> (r: Tuple)
        ensures
            r == self.position_spec(),
    {
        self.projectile.r
    }

    /// The velocity, for the host to report.
    pub fn velocity(&self) -> (r: Tuple)
        ensures
            r == self.velocity_spec(),
    {
        self.projectile.v
    }

    /// One step: the position advances by the velocity, and gravity and
    /// wind accumulate into the velocity. The environment never changes.
    pub fn tick(&mut self)
        requires
            can_add(old(self).position_spec(), old(self).velocity_spec()),
            can_add(old(self).velocity_spec(), old(self).gravity_spec()),
            can_add(
                tuple_sum(old(self).velocity_spec(), old(self).gravity_spec()),
                old(self).wind_spec(),
            ),
        ensures
            final(self).position_spec() == tuple_sum(
                old(self).position_spec(),
                old(self).velocity_spec(),
            ),
            final(self).velocity_spec() == tuple_sum(
                tuple_sum(old(self).velocity_spec(), old(self).gravity_spec()),
                old(self).wind_spec(),
            ),
            final(self).gravity_spec() == old(self).gravity_spec(),
            final(self).wind_spec() == old(self).wind_spec(),
    {
        self.projectile.r = self.projectile.r.add(self.projectile.v);
        self.projectile.v = self.projectile.v.add(self.env.gravity).add(self.env.wind);
    }
}

} // verus!
