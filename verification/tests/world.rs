use falling_sand::material::Material;
use falling_sand::model::{Message, Model, State};
use falling_sand::particle::{MoveBuffer, Particle, Velocity};

fn particle(m: Material) -> Particle {
    Particle { material: m, ..Particle::default() }
}

fn material(model: &Model, x: usize, y: usize) -> Material {
    model.get_material(x as isize, y as isize)
}

fn put(model: &mut Model, x: usize, y: usize, m: Material) {
    model.set_particle(x, y, particle(m));
}

fn all_cells(model: &Model) -> Vec<Particle> {
    (0..model.width() * model.height()).map(|i| model.particle_at(i)).collect()
}

#[test]
fn new_world_is_empty_and_running() {
    let model = Model::new(3, 2);
    assert_eq!(model.width(), 3);
    assert_eq!(model.height(), 2);
    assert_eq!(model.state, State::Running);
    assert_eq!(model.state(), State::Running);
    assert_eq!(State::default(), State::Running);
    for y in 0..2 {
        for x in 0..3 {
            assert!(model.is_empty(x, y));
        }
    }
}

#[test]
fn index_is_row_major() {
    let model = Model::new(4, 3);
    assert_eq!(model.get_index(0, 0), Some(0));
    assert_eq!(model.get_index(3, 0), Some(3));
    assert_eq!(model.get_index(1, 2), Some(9));
    assert_eq!(model.get_index(4, 0), None);
    assert_eq!(model.get_index(0, 3), None);
    assert_eq!(model.get_index(-1, 0), None);
    assert_eq!(model.get_index(0, -1), None);
    assert!(model.in_bounds(3, 2));
    assert!(!model.in_bounds(3, 3));
    assert!(!model.in_bounds(-1, 2));
}

#[test]
fn outside_the_grid_is_wall() {
    let mut model = Model::new(2, 2);
    put(&mut model, 1, 1, Material::Water);
    assert_eq!(model.get_material(1, 1), Material::Water);
    assert_eq!(model.get_material(0, 0), Material::Air);
    assert_eq!(model.get_material(-1, 0), Material::Wall);
    assert_eq!(model.get_material(2, 1), Material::Wall);
}

#[test]
fn can_move_into_empty_or_less_dense_cells() {
    let mut model = Model::new(3, 3);
    put(&mut model, 1, 0, Material::Sand);
    put(&mut model, 1, 1, Material::Water);
    put(&mut model, 0, 1, Material::Sand);
    // sand sinks into water
    assert!(model.can_move_to(1, 0, 1, 1));
    // water cannot enter sand
    assert!(!model.can_move_to(1, 1, 0, 1));
    // equal density blocks
    assert!(!model.can_move_to(1, 0, 0, 1));
    // anything may enter an empty cell, even from outside the grid
    assert!(model.can_move_to(1, 1, 2, 2));
    assert!(model.can_move_to(-5, -5, 2, 2));
    // a wall (outside) is denser than all: from outside into water is allowed
    assert!(model.can_move_to(-1, 1, 1, 1));
    // nothing leaves the grid
    assert!(!model.can_move_to(1, 1, 3, 1));
    assert!(!model.can_move_to(1, 1, 1, -1));
}

#[test]
fn swapping_twice_restores_the_grid() {
    let mut model = Model::new(3, 2);
    put(&mut model, 0, 0, Material::Sand);
    put(&mut model, 2, 1, Material::Wood);
    let before = all_cells(&model);
    model.swap_particles(0, 0, 2, 1);
    assert_eq!(material(&model, 0, 0), Material::Wood);
    assert_eq!(material(&model, 2, 1), Material::Sand);
    model.swap_particles(0, 0, 2, 1);
    assert_eq!(all_cells(&model), before);
}

#[test]
fn setting_motion_keeps_the_material() {
    let mut model = Model::new(2, 2);
    put(&mut model, 1, 0, Material::Fire);
    let v = Velocity { x_bits: 2.5f64.to_bits(), y_bits: (-1.0f64).to_bits() };
    let b = MoveBuffer { x_bits: 0.25f64.to_bits(), y_bits: 0.75f64.to_bits() };
    model.set_motion(1, v, b);
    let p = model.particle_at(1);
    assert_eq!(p.material, Material::Fire);
    assert_eq!(f64::from_bits(p.velocity.x_bits), 2.5);
    assert_eq!(f64::from_bits(p.move_buffer.y_bits), 0.75);
}

#[test]
fn fire_spreads_to_adjacent_wood() {
    let mut model = Model::new(5, 5);
    put(&mut model, 2, 2, Material::Fire);
    put(&mut model, 1, 1, Material::Wood); // diagonal neighbour
    put(&mut model, 2, 3, Material::Wood); // below
    put(&mut model, 4, 4, Material::Wood); // not a neighbour
    put(&mut model, 3, 2, Material::Sand); // not flammable
    let moving = Velocity { x_bits: 3.0f64.to_bits(), y_bits: 0 };
    model.set_motion(model.get_index(1, 1).unwrap(), moving, MoveBuffer::default());
    model.resolve_chemical_reaction(2, 2, 2, 3);
    assert_eq!(material(&model, 1, 1), Material::Fire);
    assert_eq!(material(&model, 2, 3), Material::Fire);
    assert_eq!(material(&model, 4, 4), Material::Wood);
    assert_eq!(material(&model, 3, 2), Material::Sand);
    assert_eq!(material(&model, 2, 2), Material::Fire);
    // a burning particle keeps its motion
    assert_eq!(model.particle_at(model.get_index(1, 1).unwrap()).velocity, moving);
}

#[test]
fn water_puts_out_fire() {
    let mut model = Model::new(3, 3);
    put(&mut model, 0, 0, Material::Water);
    put(&mut model, 1, 1, Material::Fire);
    put(&mut model, 1, 0, Material::Wood);
    let moving = Velocity { x_bits: 3.0f64.to_bits(), y_bits: 1.0f64.to_bits() };
    model.set_motion(model.get_index(1, 1).unwrap(), moving, MoveBuffer::default());
    model.resolve_chemical_reaction(0, 0, 1, 1);
    assert_eq!(model.particle_at(model.get_index(1, 1).unwrap()), Particle::default());
    // the water evaporates
    assert_eq!(model.particle_at(model.get_index(0, 0).unwrap()), Particle::default());
    // water does nothing to wood
    assert_eq!(material(&model, 1, 0), Material::Wood);
}

#[test]
fn water_next_to_fire_evaporates() {
    let mut model = Model::new(2, 1);
    put(&mut model, 0, 0, Material::Water);
    put(&mut model, 1, 0, Material::Fire);
    model.resolve_chemical_reaction(0, 0, 1, 0);
    assert_eq!(model.particle_at(1), Particle::default());
    assert_eq!(model.get_material(0, 0), Material::Air);
}

#[test]
fn water_puts_out_only_the_first_fire() {
    let mut model = Model::new(3, 3);
    put(&mut model, 1, 1, Material::Water);
    put(&mut model, 2, 0, Material::Fire);
    put(&mut model, 0, 2, Material::Fire);
    model.resolve_chemical_reaction(1, 1, 1, 1);
    // columns are visited left to right: the fire at (0, 2) goes out first
    assert_eq!(material(&model, 0, 2), Material::Air);
    assert_eq!(material(&model, 1, 1), Material::Air);
    assert_eq!(material(&model, 2, 0), Material::Fire);
}

#[test]
fn water_without_fire_stays() {
    let mut model = Model::new(3, 3);
    put(&mut model, 1, 1, Material::Water);
    put(&mut model, 0, 0, Material::Wood);
    model.resolve_chemical_reaction(1, 1, 1, 1);
    assert_eq!(material(&model, 1, 1), Material::Water);
    assert_eq!(material(&model, 0, 0), Material::Wood);
}

#[test]
fn reaction_at_the_corner_stays_in_the_grid() {
    let mut model = Model::new(2, 2);
    put(&mut model, 0, 0, Material::Fire);
    put(&mut model, 1, 1, Material::Wood);
    model.resolve_chemical_reaction(0, 0, 0, 0);
    assert_eq!(material(&model, 1, 1), Material::Fire);
}

#[test]
fn resize_to_the_same_size_changes_nothing() {
    let mut model = Model::new(4, 8);
    put(&mut model, 1, 1, Material::Sand);
    // an empty cell with leftover motion survives only because nothing is copied
    let b = MoveBuffer { x_bits: 0.5f64.to_bits(), y_bits: 0 };
    model.set_motion(0, Velocity::default(), b);
    let before = all_cells(&model);
    model.resize(4, 2);
    assert_eq!(model.width(), 4);
    assert_eq!(model.height(), 8);
    assert_eq!(all_cells(&model), before);
}

#[test]
fn resize_centres_the_content() {
    let mut model = Model::new(3, 4);
    put(&mut model, 0, 0, Material::Sand);
    put(&mut model, 2, 3, Material::Water);
    let b = MoveBuffer { x_bits: 0.5f64.to_bits(), y_bits: 0 };
    model.set_motion(1, Velocity::default(), b); // air with motion is not copied
    model.resize(6, 2); // 6 wide, 8 tall: offsets 1 and 2
    assert_eq!(model.width(), 6);
    assert_eq!(model.height(), 8);
    assert_eq!(material(&model, 1, 2), Material::Sand);
    assert_eq!(material(&model, 3, 5), Material::Water);
    let count = all_cells(&model).iter().filter(|p| !p.is_empty()).count();
    assert_eq!(count, 2);
    assert_eq!(model.particle_at(model.get_index(2, 2).unwrap()), Particle::default());
}

#[test]
fn shrinking_drops_what_falls_outside() {
    let mut model = Model::new(6, 8);
    put(&mut model, 0, 0, Material::Sand);
    put(&mut model, 3, 4, Material::Wood);
    model.resize(3, 1); // 3 wide, 4 tall: offsets -1 and -2 (rounded toward zero)
    assert_eq!(model.width(), 3);
    assert_eq!(model.height(), 4);
    assert_eq!(material(&model, 2, 2), Material::Wood);
    let count = all_cells(&model).iter().filter(|p| !p.is_empty()).count();
    assert_eq!(count, 1);
}

#[test]
fn odd_differences_round_toward_zero() {
    let mut model = Model::new(4, 4);
    put(&mut model, 3, 3, Material::Wall);
    model.resize(1, 1); // offsets -(3 / 2) = -1 and 0
    assert_eq!(model.width(), 1);
    assert_eq!(model.height(), 4);
    assert!(all_cells(&model).iter().all(|p| p.is_empty()));
    let mut model = Model::new(4, 4);
    put(&mut model, 1, 0, Material::Wall);
    model.resize(1, 1);
    assert_eq!(material(&model, 0, 0), Material::Wall);
}

#[test]
fn update_quit_marks_done_and_replies_nothing() {
    let mut model = Model::new(2, 4);
    put(&mut model, 0, 0, Material::Sand);
    let before = all_cells(&model);
    assert_eq!(model.update(Message::Tick), None);
    assert_eq!(all_cells(&model), before);
    assert_eq!(model.state, State::Running);
    assert_eq!(model.update(Message::Quit), None);
    assert_eq!(model.state, State::Done);
    assert_eq!(all_cells(&model), before);
    assert_eq!(model.update(Message::Resize(3, 2)), None);
    assert_eq!(model.state, State::Done);
    assert_eq!(model.width(), 3);
    assert_eq!(model.height(), 8);
}

#[test]
fn spawned_particles_only_land_in_empty_cells() {
    let mut model = Model::new(3, 3);
    put(&mut model, 1, 1, Material::Wall);
    let pending = vec![
        (1, 1, particle(Material::Sand)),  // occupied: skipped
        (0, 2, particle(Material::Water)), // placed
        (0, 2, particle(Material::Sand)),  // now occupied: skipped
        (3, 0, particle(Material::Sand)),  // outside: skipped
        (usize::MAX, 0, particle(Material::Sand)), // far outside: skipped
        (2, 0, particle(Material::Fire)),  // placed
    ];
    model.spawn(pending);
    assert_eq!(material(&model, 1, 1), Material::Wall);
    assert_eq!(material(&model, 0, 2), Material::Water);
    assert_eq!(material(&model, 2, 0), Material::Fire);
    let count = all_cells(&model).iter().filter(|p| !p.is_empty()).count();
    assert_eq!(count, 3);
}

#[test]
fn material_coords_in_row_major_order() {
    let mut model = Model::new(3, 2);
    put(&mut model, 2, 0, Material::Sand);
    put(&mut model, 0, 1, Material::Sand);
    put(&mut model, 1, 1, Material::Water);
    assert_eq!(model.get_material_coords(Material::Sand), vec![(2, 0), (0, 1)]);
    assert_eq!(model.get_material_coords(Material::Water), vec![(1, 1)]);
    assert_eq!(model.get_material_coords(Material::Fire), vec![]);
    assert_eq!(model.get_material_coords(Material::Air).len(), 3);
}

#[test]
fn clamp_to_grid_keeps_positions_inside() {
    let model = Model::new(5, 8);
    assert_eq!(model.clamp_to_grid(2, 3), (2, 3));
    assert_eq!(model.clamp_to_grid(5, 8), (4, 7));
    assert_eq!(model.clamp_to_grid(usize::MAX, 0), (4, 0));
}

#[test]
fn sweep_goes_bottom_up_left_to_right() {
    let model = Model::new(2, 3);
    assert_eq!(model.sweep_order(), vec![(0, 2), (1, 2), (0, 1), (1, 1), (0, 0), (1, 0)]);
    assert_eq!(Model::new(0, 3).sweep_order(), vec![]);
}

#[test]
fn growing_and_shrinking_back_restores_the_world() {
    let mut model = Model::new(3, 4);
    put(&mut model, 0, 0, Material::Sand);
    put(&mut model, 2, 3, Material::Water);
    put(&mut model, 1, 2, Material::Wood);
    let v = Velocity { x_bits: 1.5f64.to_bits(), y_bits: 2.5f64.to_bits() };
    model.set_motion(model.get_index(2, 3).unwrap(), v, MoveBuffer::default());
    let before = all_cells(&model);
    model.resize(8, 3);
    model.resize(3, 1);
    assert_eq!(model.width(), 3);
    assert_eq!(model.height(), 4);
    assert_eq!(all_cells(&model), before);
}
