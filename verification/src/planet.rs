//! The planet entity and its factory.
//!
//! A planet is a point mass with a position, a velocity, a trail
//! anchor (`last_position`, scratch state owned by the presentation
//! layer but stored on the entity), and a display color drawn at
//! random once at creation and immutable afterwards.

use vstd::prelude::*;
use crate::num::{cbrt_floor, icbrt, lemma_cbrt_floor_bounds, sat_div, sat_mul, sdiv, smul};
use crate::vector::{padd, pmul, vadd, Position, Velocity};

verus! {

/// An RGBA display color. The engine never reads it; it exists so a
/// renderer can draw each planet's trail in a stable color.
#[derive(Debug, Clone, Copy, PartialEq, Eq, Structural)]
pub struct Color {
    pub r: u8,
    pub g: u8,
    pub b: u8,
    pub a: u8,
}

impl Color {
    pub fn rgba(r: u8, g: u8, b: u8, a: u8) -> (c: Color)
        ensures
            c == (Color { r, g, b, a }),
    {
        Color { r, g, b, a }
    }
}

/// Relies on `rand::random::<u8>`: a byte from the process-wide
/// generator. The value depends on the generator's state, so nothing
/// is promised of it.
#[verifier::external_body]
fn random_byte() -> u8 {
    rand::random()
}

#[derive(Debug, Clone, Copy, PartialEq, Eq, Structural)]
pub struct Planet {
    pub mass: i128,
    pub position: Position,
    pub last_position: Position,
    pub trail_color: Color,
    pub velocity: Velocity,
}

/// The planet after moving for `t` time units: its position advances
/// by `velocity * t`; nothing else changes.
pub open spec fn moved(p: Planet, t: i128) -> Planet {
    Planet {
        position: padd(p.position, pmul(Position { x: p.velocity.x, y: p.velocity.y }, t)),
        ..p
    }
}

/// The display radius of a planet of mass `m`: the cube root of the
/// mass, scaled down by 88/25 (so radius grows with the cube root of
/// mass). Non-positive masses, which the engine never produces, map
/// to zero.
pub open spec fn radius_spec(mass: i128) -> i128 {
    if mass <= 0 {
        0
    } else {
        sdiv(smul(cbrt_floor(mass as int) as i128, 25), 88)
    }
}

impl Planet {
    /// The factory: builds a planet at `position` with the given mass
    /// and velocity, anchors its trail there, and draws its trail
    /// color uniformly at random per channel with full alpha.
    pub fn new(mass: i128, position: Position, velocity: Velocity) -> (p: Planet)
        ensures
            p.mass == mass,
            p.position == position,
            p.last_position == position,
            p.velocity == velocity,
            p.trail_color.a == 255,
    {
        Planet {
            mass,
            position,
            last_position: position,
            trail_color: Color { r: random_byte(), g: random_byte(), b: random_byte(), a: 255 },
            velocity,
        }
    }

    /// Advance the position by `velocity * time`.
    pub fn move_for(&mut self, time: i128)
        ensures
            *final(self) == moved(*old(self), time),
    {
        self.position = self.position.add(self.velocity.to_position().mul(time));
    }

    /// Accumulate an impulse into the velocity.
    pub fn add_velocity(&mut self, velocity: Velocity)
        ensures
            *final(self) == (Planet { velocity: vadd(old(self).velocity, velocity), ..*old(self) }),
    {
        self.velocity = self.velocity.add(velocity);
    }

    pub fn radius(mass: i128) -> (r: i128)
        ensures
            r == radius_spec(mass),
    {
        if mass <= 0 {
            0
        } else {
            let c = icbrt(mass);
            proof {
                lemma_cbrt_floor_bounds(mass as int);
                assert(cbrt_floor(mass as int) < 6000000000000int) by (nonlinear_arith)
                    requires
                        cbrt_floor(mass as int) * cbrt_floor(mass as int) * cbrt_floor(
                            mass as int,
                        ) <= mass as int,
                        mass as int <= i128::MAX as int,
                        cbrt_floor(mass as int) >= 0,
                ;
            }
            sat_div(sat_mul(c, 25), 88)
        }
    }
}

} // verus!
