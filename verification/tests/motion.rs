use falling_sand::anchor::GridAnchor;
use falling_sand::material::Material;
use falling_sand::model::Model;
use falling_sand::motion::{Advance, Motion, WallContact};
use falling_sand::particle::{Particle, Velocity};

fn particle(m: Material) -> Particle {
    Particle { material: m, ..Particle::default() }
}

fn put(model: &mut Model, x: usize, y: usize, m: Material) {
    model.set_particle(x, y, particle(m));
}

fn material(model: &Model, x: usize, y: usize) -> Material {
    model.get_material(x as isize, y as isize)
}

fn census(model: &Model) -> Vec<(Material, usize)> {
    let all = [
        Material::Air,
        Material::Sand,
        Material::Water,
        Material::Fire,
        Material::Wood,
        Material::Wall,
    ];
    all.iter()
        .map(|m| {
            let n = (0..model.width() * model.height())
                .filter(|i| model.particle_at(*i).material == *m)
                .count();
            (*m, n)
        })
        .collect()
}

#[test]
fn plan_step_moves_one_cell_per_axis() {
    let mut mv = Motion::new(2, 3, 3, -2);
    assert_eq!(mv.plan_step(), Some((1, -1)));
    assert_eq!((mv.next_x, mv.next_y, mv.steps_x, mv.steps_y), (3, 2, 2, -1));
    assert_eq!((mv.x, mv.y), (2, 3));
    let mut mv = Motion::new(2, 3, 0, 5);
    assert_eq!(mv.plan_step(), Some((0, 1)));
    assert_eq!((mv.next_x, mv.next_y, mv.steps_x, mv.steps_y), (2, 4, 0, 4));
}

#[test]
fn plan_step_ends_without_steps() {
    let mut mv = Motion::new(1, 1, 0, 0);
    let before = mv;
    assert_eq!(mv.plan_step(), None);
    assert_eq!(mv, before);
}

#[test]
fn a_walk_always_ends() {
    let mut mv = Motion::new(5, 5, -7, 3);
    let mut count = 0;
    while mv.plan_step().is_some() {
        mv.x = mv.next_x;
        mv.y = mv.next_y;
        count += 1;
    }
    assert_eq!(count, 7);
    assert_eq!((mv.x, mv.y), (-2, 8));
}

#[test]
fn moving_into_empty_cells_swaps() {
    let mut model = Model::new(3, 3);
    put(&mut model, 1, 0, Material::Sand);
    let mut mv = Motion::new(1, 0, 0, 2);
    mv.plan_step();
    assert_eq!(model.advance(&mut mv), Advance::Moved);
    assert_eq!((mv.x, mv.y), (1, 1));
    assert_eq!(material(&model, 1, 1), Material::Sand);
    assert_eq!(material(&model, 1, 0), Material::Air);
}

#[test]
fn sand_sinks_through_water() {
    let mut model = Model::new(3, 3);
    put(&mut model, 1, 0, Material::Sand);
    put(&mut model, 1, 1, Material::Water);
    let before = census(&model);
    let mut mv = Motion::new(1, 0, 0, 1);
    mv.plan_step();
    let index = model.get_index(1, 1).unwrap();
    assert_eq!(model.advance(&mut mv), Advance::Sank { index, displaced: Material::Water });
    assert_eq!(material(&model, 1, 1), Material::Sand);
    assert_eq!(material(&model, 1, 0), Material::Water);
    assert_eq!(census(&model), before);
}

#[test]
fn equal_density_blocks_without_change() {
    let mut model = Model::new(3, 3);
    put(&mut model, 1, 0, Material::Sand);
    put(&mut model, 1, 1, Material::Sand);
    let mut mv = Motion::new(1, 0, 0, 1);
    mv.plan_step();
    let saved = mv;
    let current = model.get_index(1, 0).unwrap();
    let target = model.get_index(1, 1).unwrap();
    assert_eq!(model.advance(&mut mv), Advance::Blocked { current, target });
    assert_eq!(mv, saved);
    assert_eq!(material(&model, 1, 0), Material::Sand);
}

#[test]
fn leaving_the_grid_hits_the_wall() {
    let mut model = Model::new(3, 3);
    put(&mut model, 2, 2, Material::Water);
    put(&mut model, 1, 2, Material::Sand);
    let mut mv = Motion::new(2, 2, 1, 1);
    mv.plan_step();
    let index = model.get_index(2, 2).unwrap();
    assert_eq!(
        model.advance(&mut mv),
        Advance::Wall(WallContact {
            index,
            material: Material::Water,
            hit_x: Some(Material::Wall),
            hit_y: Some(Material::Wall),
        })
    );
    assert_eq!((mv.steps_x, mv.steps_y), (0, 0));
    // a diagonal step out of the bottom edge is blocked only vertically
    let mut model = Model::new(3, 3);
    put(&mut model, 1, 2, Material::Sand);
    let contact = model.wall_collision(1, 2, 2, 3);
    assert_eq!(contact.hit_x, None);
    assert_eq!(contact.hit_y, Some(Material::Wall));
    assert_eq!(contact.material, Material::Sand);
}

#[test]
fn resting_sand_slides_down_diagonally() {
    let mut model = Model::new(3, 3);
    put(&mut model, 1, 1, Material::Sand);
    put(&mut model, 1, 2, Material::Sand);
    let mut mv = Motion::new(1, 1, 0, 1);
    mv.plan_step();
    assert!(matches!(model.advance(&mut mv), Advance::Blocked { .. }));
    let slid = model.settle(&mut mv, true);
    let target = model.get_index(1, 2).unwrap();
    assert_eq!(slid, Some((target, Material::Sand)));
    assert_eq!(material(&model, 0, 2), Material::Sand);
    assert_eq!(material(&model, 1, 1), Material::Air);
    // the walk goes on from the same position
    assert_eq!((mv.x, mv.y), (1, 1));
}

#[test]
fn resting_water_spreads_sideways() {
    let mut model = Model::new(3, 2);
    put(&mut model, 1, 0, Material::Water);
    put(&mut model, 0, 1, Material::Sand);
    put(&mut model, 1, 1, Material::Sand);
    put(&mut model, 2, 1, Material::Sand);
    let mut mv = Motion::new(1, 0, 0, 1);
    mv.plan_step();
    assert!(matches!(model.advance(&mut mv), Advance::Blocked { .. }));
    assert!(model.settle(&mut mv, true).is_some());
    assert_eq!(material(&model, 0, 0), Material::Water);
    // sand would not
    let mut model = Model::new(3, 2);
    put(&mut model, 1, 0, Material::Sand);
    put(&mut model, 0, 1, Material::Sand);
    put(&mut model, 1, 1, Material::Sand);
    put(&mut model, 2, 1, Material::Sand);
    let mut mv = Motion::new(1, 0, 0, 1);
    mv.plan_step();
    model.advance(&mut mv);
    assert_eq!(model.settle(&mut mv, true), None);
    assert_eq!(material(&model, 1, 0), Material::Sand);
}

#[test]
fn a_moving_particle_ends_its_walk_after_a_collision() {
    let mut model = Model::new(3, 3);
    put(&mut model, 1, 1, Material::Sand);
    put(&mut model, 1, 2, Material::Sand);
    let mut mv = Motion::new(1, 1, 0, 1);
    mv.plan_step();
    model.advance(&mut mv);
    assert_eq!(model.settle(&mut mv, false), None);
    assert_eq!((mv.steps_x, mv.steps_y), (0, 0));
    assert_eq!(material(&model, 1, 1), Material::Sand);
}

#[test]
fn a_collision_lets_fire_burn_wood() {
    let mut model = Model::new(3, 3);
    put(&mut model, 1, 1, Material::Fire);
    put(&mut model, 1, 2, Material::Wood);
    model.set_particle(
        0,
        0,
        Particle { material: Material::Wood, velocity: Velocity { x_bits: 1, y_bits: 2 }, ..Particle::default() },
    );
    let mut mv = Motion::new(1, 1, 0, 1);
    mv.plan_step();
    // fire is lighter than wood: it is blocked
    assert!(matches!(model.advance(&mut mv), Advance::Blocked { .. }));
    model.settle(&mut mv, false);
    assert_eq!(material(&model, 1, 2), Material::Fire);
    assert_eq!(material(&model, 0, 0), Material::Fire);
    assert_eq!(model.particle_at(0).velocity, Velocity { x_bits: 1, y_bits: 2 });
}

#[test]
fn evaporating_water_comes_to_rest() {
    let mut model = Model::new(3, 2);
    put(&mut model, 1, 0, Material::Water);
    put(&mut model, 1, 1, Material::Sand);
    put(&mut model, 0, 0, Material::Fire);
    let mut mv = Motion::new(1, 0, 0, 1);
    mv.plan_step();
    assert!(matches!(model.advance(&mut mv), Advance::Blocked { .. }));
    // still moving, but the water evaporates: the walk goes on
    let target = model.get_index(1, 1).unwrap();
    assert_eq!(model.settle(&mut mv, false), Some((target, Material::Sand)));
    assert_eq!(material(&model, 0, 0), Material::Air);
    assert_eq!(material(&model, 1, 0), Material::Air);
    assert_eq!((mv.steps_x, mv.steps_y), (0, 0));
}

#[test]
fn grid_anchors() {
    assert_eq!(GridAnchor::Fixed(3, 4).target(10), (3, 4));
    assert_eq!(GridAnchor::TopRight(2, 5).target(10), (8, 5));
    assert_eq!(GridAnchor::TopRight(12, 5).target(10), (0, 5));
    assert_eq!(GridAnchor::CenterX(1).target(11), (5, 1));
}
