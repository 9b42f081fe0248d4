use falling_sand::material::Material;
use falling_sand::particle::{MoveBuffer, Particle, Velocity};

const ALL: [Material; 6] = [
    Material::Air,
    Material::Sand,
    Material::Water,
    Material::Fire,
    Material::Wood,
    Material::Wall,
];

#[test]
fn densities_match_the_table() {
    assert_eq!(Material::Air.density(), 0);
    assert_eq!(Material::Fire.density(), 1);
    assert_eq!(Material::Wood.density(), 8);
    assert_eq!(Material::Water.density(), 10);
    assert_eq!(Material::Sand.density(), 20);
    assert_eq!(Material::Wall.density(), 255);
}

#[test]
fn denser_materials_are_the_heavier_ones() {
    // sand sinks through water, water through wood, wood through fire
    assert!(Material::Sand.density() > Material::Water.density());
    assert!(Material::Water.density() > Material::Wood.density());
    assert!(Material::Wood.density() > Material::Fire.density());
    for m in ALL {
        if m != Material::Wall {
            assert!(m.density() < Material::Wall.density());
        }
        if m != Material::Air {
            assert!(m.density() > Material::Air.density());
        }
        for n in ALL {
            if m != n {
                assert_ne!(m.density(), n.density());
            }
        }
    }
}

#[test]
fn terminal_velocities_in_metres_per_second() {
    assert_eq!(Material::Sand.terminal_velocity(), 7);
    assert_eq!(Material::Water.terminal_velocity(), 9);
    assert_eq!(Material::Wood.terminal_velocity(), 4);
    assert_eq!(Material::Fire.terminal_velocity(), 3);
    assert_eq!(Material::Air.terminal_velocity(), 0);
    assert_eq!(Material::Wall.terminal_velocity(), 0);
}

#[test]
fn friction_in_hundredths() {
    assert_eq!(Material::Air.friction(), 0);
    assert_eq!(Material::Fire.friction(), 5);
    assert_eq!(Material::Wood.friction(), 10);
    assert_eq!(Material::Sand.friction(), 50);
    assert_eq!(Material::Water.friction(), 60);
    assert_eq!(Material::Wall.friction(), 0);
    // the hundredths give back exactly the decimal factors
    assert_eq!(Material::Sand.friction() as f64 / 100.0, 0.5);
    assert_eq!(Material::Water.friction() as f64 / 100.0, 0.6);
    assert_eq!(Material::Fire.friction() as f64 / 100.0, 0.05);
    assert_eq!(Material::Wood.friction() as f64 / 100.0, 0.1);
}

#[test]
fn bounce_in_hundredths() {
    assert_eq!(Material::Air.bounce(), 0);
    assert_eq!(Material::Water.bounce(), 5);
    assert_eq!(Material::Fire.bounce(), 5);
    assert_eq!(Material::Sand.bounce(), 5);
    assert_eq!(Material::Wood.bounce(), 20);
    assert_eq!(Material::Wall.bounce(), 50);
    assert_eq!(Material::Wood.bounce() as f64 / 100.0, 0.2);
    assert_eq!(Material::Wall.bounce() as f64 / 100.0, 0.5);
    assert_eq!(Material::Sand.bounce() as f64 / 100.0, 0.05);
}

#[test]
fn kinds_of_material() {
    assert!(Material::Sand.is_solid() && Material::Wood.is_solid() && Material::Wall.is_solid());
    assert!(!Material::Water.is_solid() && !Material::Fire.is_solid() && !Material::Air.is_solid());
    assert!(Material::Water.is_fluid());
    assert!(!Material::Sand.is_fluid());
    assert!(Material::Fire.is_gas());
    assert!(!Material::Water.is_gas());
    assert!(Material::Wood.is_combustable());
    // sand is not flammable
    assert!(!Material::Sand.is_combustable());
    for m in ALL {
        let kinds = [m.is_solid(), m.is_fluid(), m.is_gas()].iter().filter(|k| **k).count();
        assert_eq!(kinds, if m == Material::Air { 0 } else { 1 });
    }
}

#[test]
fn default_material_and_particle_are_air_at_rest() {
    assert_eq!(Material::default(), Material::Air);
    let p = Particle::default();
    assert!(p.is_empty());
    assert_eq!(p.material, Material::Air);
    assert_eq!(f64::from_bits(p.velocity.x_bits), 0.0);
    assert_eq!(f64::from_bits(p.move_buffer.y_bits), 0.0);
    assert_eq!(p.velocity, Velocity::default());
    assert_eq!(p.move_buffer, MoveBuffer::default());
    let sand = Particle { material: Material::Sand, ..Particle::default() };
    assert!(!sand.is_empty());
}
