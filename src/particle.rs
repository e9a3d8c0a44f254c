use vstd::prelude::*;

use crate::fixed::SCALE;

verus! {

/// Largest magnitude accepted for a coordinate, a velocity component, a bound,
/// the gravity or the interaction radius (in raw fixed-point steps).
pub const MAX_MAGNITUDE: i64 = 1_099_511_627_776;

/// Largest accepted interaction force coefficient (in raw fixed-point steps).
pub const MAX_FORCE_COEFFICIENT: i64 = 16_777_216;

/// Largest accepted number of particles in one set.
pub const MAX_PARTICLES: usize = 65_536;

/// A pair of fixed-point components.
#[derive(Clone, Copy, Debug, PartialEq, Eq, Structural)]
pub struct Vector {
    pub x: i64,
    pub y: i64,
}

/// A unit-mass point with a position and a velocity, in fixed-point steps of
/// `1 / SCALE`.
#[derive(Clone, Copy, Debug, PartialEq, Eq, Structural)]
pub struct Particle {
    pub position: Vector,
    pub velocity: Vector,
}

/// The mathematical value of a particle.
pub struct ParticleState {
    pub pos_x: int,
    pub pos_y: int,
    pub vel_x: int,
    pub vel_y: int,
}

impl View for Particle {
    type V = ParticleState;

    open spec fn view(&self) -> ParticleState {
        ParticleState {
            pos_x: self.position.x as int,
            pos_y: self.position.y as int,
            vel_x: self.velocity.x as int,
            vel_y: self.velocity.y as int,
        }
    }
}

/// `v` lies in `[-m, m]`.
pub open spec fn within_magnitude(v: int, m: int) -> bool {
    -m <= v <= m
}

impl Particle {
    /// Every component lies within `MAX_MAGNITUDE`.
    pub open spec fn is_valid(&self) -> bool {
        &&& within_magnitude(self.position.x as int, MAX_MAGNITUDE as int)
        &&& within_magnitude(self.position.y as int, MAX_MAGNITUDE as int)
        &&& within_magnitude(self.velocity.x as int, MAX_MAGNITUDE as int)
        &&& within_magnitude(self.velocity.y as int, MAX_MAGNITUDE as int)
    }

    /// A particle at `(x, y)` with zero velocity.
    pub fn at_rest(x: i64, y: i64) -> (r: Particle)
        ensures
            r.position.x == x,
            r.position.y == y,
            r.velocity.x == 0,
            r.velocity.y == 0,
    {
        Particle { position: Vector { x, y }, velocity: Vector { x: 0, y: 0 } }
    }

    /// Whether every component lies within `MAX_MAGNITUDE`.
    pub fn check_valid(&self) -> (r: bool)
        ensures
            r == self.is_valid(),
    {
        let m = MAX_MAGNITUDE;
        -m <= self.position.x && self.position.x <= m && -m <= self.position.y
            && self.position.y <= m && -m <= self.velocity.x && self.velocity.x <= m && -m
            <= self.velocity.y && self.velocity.y <= m
    }
}

/// The tunable constants of the simulation, in fixed-point steps of `1 / SCALE`.
#[derive(Clone, Copy, Debug, PartialEq, Eq, Structural)]
pub struct SimConfig {
    /// Added to every vertical velocity once per tick.
    pub gravity: i64,
    /// Fraction of velocity kept, with its sign inverted, on a wall collision.
    pub damping: i64,
    /// Largest centre distance at which two particles repel.
    pub interaction_radius: i64,
    /// Repulsion per unit of overlap.
    pub interaction_force: i64,
}

impl SimConfig {
    /// Damping is a fraction in `[0, 1]`; the other constants lie within the
    /// limits that keep the arithmetic exact.
    pub open spec fn is_valid(&self) -> bool {
        &&& within_magnitude(self.gravity as int, MAX_MAGNITUDE as int)
        &&& 0 <= self.damping <= SCALE
        &&& 0 <= self.interaction_radius <= MAX_MAGNITUDE
        &&& 0 <= self.interaction_force <= MAX_FORCE_COEFFICIENT
    }

    pub fn new(gravity: i64, damping: i64, interaction_radius: i64, interaction_force: i64) -> (r:
        SimConfig)
        ensures
            r.gravity == gravity,
            r.damping == damping,
            r.interaction_radius == interaction_radius,
            r.interaction_force == interaction_force,
    {
        SimConfig { gravity, damping, interaction_radius, interaction_force }
    }

    /// Gravity 0.5, damping 0.5, interaction radius 10 and force coefficient 0.05.
    pub fn standard() -> (r: SimConfig)
        ensures
            r.gravity == SCALE / 2,
            r.damping == SCALE / 2,
            r.interaction_radius == 10 * SCALE,
            r.interaction_force == SCALE / 20,
            r.is_valid(),
    {
        SimConfig {
            gravity: SCALE / 2,
            damping: SCALE / 2,
            interaction_radius: 10 * SCALE,
            interaction_force: SCALE / 20,
        }
    }

    /// Whether the constants lie within the accepted limits.
    pub fn check_valid(&self) -> (r: bool)
        ensures
            r == self.is_valid(),
    {
        -MAX_MAGNITUDE <= self.gravity && self.gravity <= MAX_MAGNITUDE && 0 <= self.damping
            && self.damping <= SCALE && 0 <= self.interaction_radius && self.interaction_radius
            <= MAX_MAGNITUDE && 0 <= self.interaction_force && self.interaction_force
            <= MAX_FORCE_COEFFICIENT
    }
}

} // verus!
