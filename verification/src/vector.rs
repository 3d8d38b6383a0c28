//! 2D vector value types: `Position` and `Velocity`.
//!
//! The two are kept as distinct types, as the engine treats them
//! semantically differently, but they carry the same componentwise
//! operators. All arithmetic is the saturating 128-bit arithmetic of
//! [`crate::num`]; in particular a divisor of exactly zero is replaced
//! by `1`, the smallest positive representable value, so that division
//! always yields a finite, representable result.

use vstd::prelude::*;
use crate::num::{sadd, sat_add, sat_div, sat_mul, sat_sub, sdiv, smul, ssub};

verus! {

#[derive(Debug, Clone, Copy, PartialEq, Eq, Structural)]
pub struct Position {
    pub x: i128,
    pub y: i128,
}

#[derive(Debug, Clone, Copy, PartialEq, Eq, Structural)]
pub struct Velocity {
    pub x: i128,
    pub y: i128,
}

pub open spec fn padd(a: Position, b: Position) -> Position {
    Position { x: sadd(a.x, b.x), y: sadd(a.y, b.y) }
}

pub open spec fn psub(a: Position, b: Position) -> Position {
    Position { x: ssub(a.x, b.x), y: ssub(a.y, b.y) }
}

pub open spec fn pmul(a: Position, s: i128) -> Position {
    Position { x: smul(a.x, s), y: smul(a.y, s) }
}

pub open spec fn pdiv(a: Position, s: i128) -> Position {
    Position { x: sdiv(a.x, s), y: sdiv(a.y, s) }
}

pub open spec fn vadd(a: Velocity, b: Velocity) -> Velocity {
    Velocity { x: sadd(a.x, b.x), y: sadd(a.y, b.y) }
}

pub open spec fn vsub(a: Velocity, b: Velocity) -> Velocity {
    Velocity { x: ssub(a.x, b.x), y: ssub(a.y, b.y) }
}

pub open spec fn vmul(a: Velocity, s: i128) -> Velocity {
    Velocity { x: smul(a.x, s), y: smul(a.y, s) }
}

pub open spec fn vdiv(a: Velocity, s: i128) -> Velocity {
    Velocity { x: sdiv(a.x, s), y: sdiv(a.y, s) }
}

pub open spec fn vneg(a: Velocity) -> Velocity {
    Velocity { x: ssub(0, a.x), y: ssub(0, a.y) }
}

impl Position {
    pub fn new(x: i128, y: i128) -> (p: Position)
        ensures
            p.x == x,
            p.y == y,
    {
        Position { x, y }
    }

    pub fn add(self, other: Position) -> (r: Position)
        ensures
            r == padd(self, other),
    {
        Position { x: sat_add(self.x, other.x), y: sat_add(self.y, other.y) }
    }

    pub fn sub(self, other: Position) -> (r: Position)
        ensures
            r == psub(self, other),
    {
        Position { x: sat_sub(self.x, other.x), y: sat_sub(self.y, other.y) }
    }

    pub fn mul(self, scalar: i128) -> (r: Position)
        ensures
            r == pmul(self, scalar),
    {
        Position { x: sat_mul(self.x, scalar), y: sat_mul(self.y, scalar) }
    }

    /// A zero divisor is replaced by `1`, so the result is always a
    /// well-defined, representable vector.
    pub fn div(self, scalar: i128) -> (r: Position)
        ensures
            r == pdiv(self, scalar),
    {
        Position { x: sat_div(self.x, scalar), y: sat_div(self.y, scalar) }
    }
}

impl Velocity {
    pub fn new(x: i128, y: i128) -> (v: Velocity)
        ensures
            v.x == x,
            v.y == y,
    {
        Velocity { x, y }
    }

    pub fn to_position(self) -> (p: Position)
        ensures
            p.x == self.x,
            p.y == self.y,
    {
        Position { x: self.x, y: self.y }
    }

    pub fn add(self, other: Velocity) -> (r: Velocity)
        ensures
            r == vadd(self, other),
    {
        Velocity { x: sat_add(self.x, other.x), y: sat_add(self.y, other.y) }
    }

    pub fn sub(self, other: Velocity) -> (r: Velocity)
        ensures
            r == vsub(self, other),
    {
        Velocity { x: sat_sub(self.x, other.x), y: sat_sub(self.y, other.y) }
    }

    pub fn mul(self, scalar: i128) -> (r: Velocity)
        ensures
            r == vmul(self, scalar),
    {
        Velocity { x: sat_mul(self.x, scalar), y: sat_mul(self.y, scalar) }
    }

    /// A zero divisor is replaced by `1`, so the result is always a
    /// well-defined, representable vector.
    pub fn div(self, scalar: i128) -> (r: Velocity)
        ensures
            r == vdiv(self, scalar),
    {
        Velocity { x: sat_div(self.x, scalar), y: sat_div(self.y, scalar) }
    }

    pub fn neg(self) -> (r: Velocity)
        ensures
            r == vneg(self),
    {
        Velocity { x: sat_sub(0, self.x), y: sat_sub(0, self.y) }
    }
}

} // verus!
