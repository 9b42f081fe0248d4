//! Particles: a material together with its motion.
//!
//! The motion of a particle (velocity, and the fractional distance it has
//! travelled but not yet stepped) is floating-point state that only the
//! physics integrator reads or writes. The grid rules never look inside it:
//! they move it along with the particle, unchanged. It is held here as the
//! IEEE-754 bit patterns of the `f64` components, so the all-zero pattern is
//! exactly `0.0`.
use vstd::prelude::*;
use crate::material::Material;

verus! {

/// Velocity in pixels per second, as the bit patterns of two `f64`s.
#[derive(Clone, Copy, Debug, PartialEq, Eq, Structural)]
pub struct Velocity {
    pub x_bits: u64,
    pub y_bits: u64,
}

/// Distance travelled but not yet turned into whole-cell steps, as the bit
/// patterns of two `f64`s.
#[derive(Clone, Copy, Debug, PartialEq, Eq, Structural)]
pub struct MoveBuffer {
    pub x_bits: u64,
    pub y_bits: u64,
}

/// One cell's content.
#[derive(Clone, Copy, Debug, PartialEq, Eq, Structural)]
pub struct Particle {
    pub material: Material,
    pub velocity: Velocity,
    pub move_buffer: MoveBuffer,
}

/// Air at rest: the content of an empty cell.
pub open spec fn air() -> Particle {
    Particle {
        material: Material::Air,
        velocity: Velocity { x_bits: 0, y_bits: 0 },
        move_buffer: MoveBuffer { x_bits: 0, y_bits: 0 },
    }
}

impl Default for Velocity {
    fn default() -> (v: Self)
        ensures
            v == (Velocity { x_bits: 0, y_bits: 0 }),
    {
        Velocity { x_bits: 0, y_bits: 0 }
    }
}

impl Default for MoveBuffer {
    fn default() -> (b: Self)
        ensures
            b == (MoveBuffer { x_bits: 0, y_bits: 0 }),
    {
        MoveBuffer { x_bits: 0, y_bits: 0 }
    }
}

impl Default for Particle {
    fn default() -> (p: Self)
        ensures
            p == air(),
    {
        Particle {
            material: Material::Air,
            velocity: Velocity { x_bits: 0, y_bits: 0 },
            move_buffer: MoveBuffer { x_bits: 0, y_bits: 0 },
        }
    }
}

impl Particle {
    /// Whether the cell holds nothing but air.
    pub fn is_empty(&self) -> (b: bool)
        ensures
            b == (self.material == Material::Air),
    {
        self.material == Material::Air
    }
}

} // verus!
