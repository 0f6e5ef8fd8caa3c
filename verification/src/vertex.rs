//! A particle and its Störmer–Verlet integration step.
//!
//! A particle has no explicit velocity: the velocity is inferred each step as
//! `position - previous_position`, which makes the scheme trivially stable
//! for constant forces and lets a hard positional clamp act as an infinitely
//! stiff, zero-restitution wall.

use vstd::prelude::*;

use crate::config::{DT_LIMIT, INTEGRATE_ACC_LIMIT, INTEGRATE_POS_LIMIT};

verus! {

/// A 2D vector of integer world units.
#[derive(Clone, Copy, PartialEq, Eq, Structural, Debug)]
pub struct Vec2 {
    pub x: i64,
    pub y: i64,
}

impl Vec2 {
    pub fn new(x: i64, y: i64) -> (r: Vec2)
        ensures
            r.x == x,
            r.y == y,
    {
        Vec2 { x, y }
    }
}

/// An opaque display attribute carried for the rendering collaborator; the
/// physics never reads it.
#[derive(Clone, Copy, PartialEq, Eq, Structural, Debug)]
pub struct Color {
    pub r: u8,
    pub g: u8,
    pub b: u8,
}

/// A particle: current and previous position, the acceleration accumulated
/// since the last integration step, and a display attribute.
///
/// All particles share one global radius, held by the configuration; there is
/// no per-particle radius.
#[derive(Clone, Copy, PartialEq, Eq, Structural, Debug)]
pub struct Vertex {
    pub position: Vec2,
    pub previous_position: Vec2,
    pub acceleration: Vec2,
    pub color: Color,
}

/// The x coordinate after one Verlet step of `dt` ticks: the position plus
/// the implicit velocity `position - previous_position` plus `acceleration
/// * dt^2`, as an exact integer.
pub open spec fn verlet_x(p: Vertex, dt: int) -> int {
    p.position.x + (p.position.x - p.previous_position.x) + p.acceleration.x * dt * dt
}

/// The y coordinate after one Verlet step of `dt` ticks.
pub open spec fn verlet_y(p: Vertex, dt: int) -> int {
    p.position.y + (p.position.y - p.previous_position.y) + p.acceleration.y * dt * dt
}

/// One Verlet integration step: the previous position becomes the current
/// one, the position advances by the implicit velocity and the accumulated
/// acceleration, and the accumulator resets to zero.
pub open spec fn integrate_spec(p: Vertex, dt: int) -> Vertex {
    Vertex {
        position: Vec2 { x: verlet_x(p, dt) as i64, y: verlet_y(p, dt) as i64 },
        previous_position: p.position,
        acceleration: Vec2 { x: 0, y: 0 },
        color: p.color,
    }
}

/// Adding `a` to the pending acceleration, all else untouched.
pub open spec fn accelerate_spec(p: Vertex, a: Vec2) -> Vertex {
    Vertex {
        acceleration: Vec2 {
            x: (p.acceleration.x + a.x) as i64,
            y: (p.acceleration.y + a.y) as i64,
        },
        ..p
    }
}

/// `integrate_spec` iterated `n` times with the same time step.
pub open spec fn integrate_iter(p: Vertex, dt: int, n: nat) -> Vertex
    decreases n,
{
    if n == 0 {
        p
    } else {
        integrate_iter(integrate_spec(p, dt), dt, (n - 1) as nat)
    }
}

impl Vertex {
    /// A new particle at `position`: the previous position coincides with the
    /// current one (so the implicit velocity is zero) and no acceleration is
    /// pending.
    pub fn new(position: Vec2, color: Color) -> (r: Vertex)
        ensures
            r.position == position,
            r.previous_position == position,
            r.acceleration == (Vec2 { x: 0, y: 0 }),
            r.color == color,
    {
        Vertex {
            position,
            previous_position: position,
            acceleration: Vec2 { x: 0, y: 0 },
            color,
        }
    }

    /// Adds `a` to the pending acceleration; the position is untouched.
    /// May be called several times before one integration: contributions
    /// accumulate.
    pub fn accelerate(&mut self, a: Vec2)
        requires
            i64::MIN <= old(self).acceleration.x + a.x <= i64::MAX,
            i64::MIN <= old(self).acceleration.y + a.y <= i64::MAX,
        ensures
            *final(self) == accelerate_spec(*old(self), a),
    {
        self.acceleration.x = self.acceleration.x + a.x;
        self.acceleration.y = self.acceleration.y + a.y;
    }

    /// One Verlet integration step of `dt` ticks.
    ///
    /// The bounds only keep the exact integer arithmetic inside `i64`; they
    /// are far wider than any position the solver produces.
    pub fn update_position(&mut self, dt: i64)
        requires
            0 <= dt <= DT_LIMIT,
            -INTEGRATE_POS_LIMIT <= old(self).position.x <= INTEGRATE_POS_LIMIT,
            -INTEGRATE_POS_LIMIT <= old(self).position.y <= INTEGRATE_POS_LIMIT,
            -INTEGRATE_POS_LIMIT <= old(self).previous_position.x <= INTEGRATE_POS_LIMIT,
            -INTEGRATE_POS_LIMIT <= old(self).previous_position.y <= INTEGRATE_POS_LIMIT,
            -INTEGRATE_ACC_LIMIT <= old(self).acceleration.x <= INTEGRATE_ACC_LIMIT,
            -INTEGRATE_ACC_LIMIT <= old(self).acceleration.y <= INTEGRATE_ACC_LIMIT,
        ensures
            *final(self) == integrate_spec(*old(self), dt as int),
    {
        proof {
            lemma_acc_dt_bound(self.acceleration.x as int, dt as int);
            lemma_acc_dt_bound(self.acceleration.y as int, dt as int);
        }
        let velocity_x = self.position.x - self.previous_position.x;
        let velocity_y = self.position.y - self.previous_position.y;
        let position = self.position;
        self.previous_position = position;
        self.position = Vec2 {
            x: position.x + velocity_x + self.acceleration.x * dt * dt,
            y: position.y + velocity_y + self.acceleration.y * dt * dt,
        };
        self.acceleration = Vec2 { x: 0, y: 0 };
    }
}

/// Under the integration bounds, an acceleration contribution `a * dt * dt`
/// and its intermediate product stay well inside `i64`.
pub proof fn lemma_acc_dt_bound(a: int, dt: int)
    by (nonlinear_arith)
    requires
        0 <= dt <= DT_LIMIT,
        -INTEGRATE_ACC_LIMIT <= a <= INTEGRATE_ACC_LIMIT,
    ensures
        -0x100_0000_0000 <= a * dt <= 0x100_0000_0000,
        -0x1_0000_0000_0000 <= a * dt * dt <= 0x1_0000_0000_0000,
{
}

/// A particle with zero pending acceleration whose position equals its
/// previous position is a fixed point of the integration step: it stays
/// exactly where it is, for any time step and any number of steps.
pub proof fn lemma_integrator_stationary(p: Vertex, dt: int, n: nat)
    requires
        p.acceleration == (Vec2 { x: 0, y: 0 }),
        p.position == p.previous_position,
    ensures
        integrate_spec(p, dt) == p,
        integrate_iter(p, dt, n) == p,
    decreases n,
{
    assert(verlet_x(p, dt) == p.position.x);
    assert(verlet_y(p, dt) == p.position.y);
    assert(integrate_spec(p, dt) == p);
    if n > 0 {
        lemma_integrator_stationary(p, dt, (n - 1) as nat);
    }
}

} // verus!
