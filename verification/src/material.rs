//! Materials and their physical constants.
//!
//! The constants that are fractions (friction, bounce) are kept as exact
//! whole numbers of hundredths, so that every table here is integral and the
//! rules built on them can be verified; the physics driver turns them into
//! floating-point factors by dividing by one hundred.
use vstd::prelude::*;

verus! {

/// What a cell of the world is made of.
#[derive(Clone, Copy, Debug, PartialEq, Eq, Structural)]
pub enum Material {
    Air,
    Sand,
    Water,
    Fire,
    Wood,
    Wall,
}

impl Default for Material {
    fn default() -> (m: Self)
        ensures
            m == Material::Air,
    {
        Material::Air
    }
}

/// Density of a material, 0 (air) to 255 (wall); a denser material sinks
/// through a less dense one.
pub open spec fn density_of(m: Material) -> u8 {
    match m {
        Material::Air => 0,
        Material::Fire => 1,
        Material::Wood => 8,
        Material::Water => 10,
        Material::Sand => 20,
        Material::Wall => 255,
    }
}

/// Terminal velocity in metres per second.
pub open spec fn terminal_velocity_of(m: Material) -> u8 {
    match m {
        Material::Sand => 7,
        Material::Water => 9,
        Material::Wood => 4,
        Material::Fire => 3,
        Material::Air => 0,
        Material::Wall => 0,
    }
}

/// Surface friction in hundredths: 0 is slick, 100 is fully grippy.
pub open spec fn friction_of(m: Material) -> u8 {
    match m {
        Material::Air => 0,
        Material::Fire => 5,
        Material::Wood => 10,
        Material::Sand => 50,
        Material::Water => 60,
        Material::Wall => 0,
    }
}

/// Bounciness in hundredths: 0 is sticky, 100 is a perfect bounce.
pub open spec fn bounce_of(m: Material) -> u8 {
    match m {
        Material::Air => 0,
        Material::Water => 5,
        Material::Fire => 5,
        Material::Sand => 5,
        Material::Wood => 20,
        Material::Wall => 50,
    }
}

pub open spec fn is_solid_spec(m: Material) -> bool {
    m == Material::Sand || m == Material::Wood || m == Material::Wall
}

pub open spec fn is_fluid_spec(m: Material) -> bool {
    m == Material::Water
}

pub open spec fn is_gas_spec(m: Material) -> bool {
    m == Material::Fire
}

pub open spec fn is_combustable_spec(m: Material) -> bool {
    m == Material::Wood
}

impl Material {
    /// Terminal velocity in metres per second.
    pub fn terminal_velocity(&self) -> (v: u8)
        ensures
            v == terminal_velocity_of(*self),
    {
        match self {
            Material::Sand => 7,
            Material::Water => 9,
            Material::Wood => 4,
            Material::Fire => 3,
            Material::Air => 0,
            Material::Wall => 0,
        }
    }

    /// Density, higher is denser.
    pub fn density(&self) -> (d: u8)
        ensures
            d == density_of(*self),
    {
        match self {
            Material::Air => 0,
            Material::Fire => 1,
            Material::Wood => 8,
            Material::Water => 10,
            Material::Sand => 20,
            Material::Wall => 255,
        }
    }

    /// Surface friction in hundredths (more is grippier).
    pub fn friction(&self) -> (f: u8)
        ensures
            f == friction_of(*self),
            f <= 100,
    {
        match self {
            Material::Air => 0,
            Material::Fire => 5,
            Material::Wood => 10,
            Material::Sand => 50,
            Material::Water => 60,
            Material::Wall => 0,
        }
    }

    /// Bounciness in hundredths (0 is sticky, 100 is bouncy).
    pub fn bounce(&self) -> (b: u8)
        ensures
            b == bounce_of(*self),
            b <= 100,
    {
        match self {
            Material::Air => 0,
            Material::Water => 5,
            Material::Fire => 5,
            Material::Sand => 5,
            Material::Wood => 20,
            Material::Wall => 50,
        }
    }

    pub fn is_solid(&self) -> (b: bool)
        ensures
            b == is_solid_spec(*self),
    {
        matches!(self, Material::Sand | Material::Wood | Material::Wall)
    }

    pub fn is_fluid(&self) -> (b: bool)
        ensures
            b == is_fluid_spec(*self),
    {
        matches!(self, Material::Water)
    }

    pub fn is_gas(&self) -> (b: bool)
        ensures
            b == is_gas_spec(*self),
    {
        matches!(self, Material::Fire)
    }

    pub fn is_combustable(&self) -> (b: bool)
        ensures
            b == is_combustable_spec(*self),
    {
        matches!(self, Material::Wood)
    }
}

/// Air is the lightest material and a wall the densest: every other material
/// lies strictly between them.
pub proof fn lemma_density_bounds(m: Material)
    ensures
        m != Material::Air ==> density_of(Material::Air) < density_of(m),
        m != Material::Wall ==> density_of(m) < density_of(Material::Wall),
{
}

/// Distinct materials have distinct densities, so of two different materials
/// one always sinks through the other.
pub proof fn lemma_density_injective(a: Material, b: Material)
    ensures
        a != b ==> density_of(a) != density_of(b),
{
}

/// Exactly one of the four kinds holds of every material but air: solid,
/// fluid (water) or gas (fire); air is none of them, and only wood burns.
pub proof fn lemma_material_kinds(m: Material)
    ensures
        m == Material::Air <==> !(is_solid_spec(m) || is_fluid_spec(m) || is_gas_spec(m)),
        !(is_solid_spec(m) && is_fluid_spec(m)),
        !(is_solid_spec(m) && is_gas_spec(m)),
        !(is_fluid_spec(m) && is_gas_spec(m)),
        is_combustable_spec(m) ==> is_solid_spec(m),
{
}

} // verus!
