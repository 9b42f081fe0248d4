//! How a particle travels through the grid during one time step.
//!
//! The physics integrator turns a particle's velocity into a number of whole
//! cells to travel along each axis. The particle then moves one cell at a
//! time (diagonally while both axes have steps left): into empty cells, down
//! through less dense particles, and otherwise it collides. The decisions of
//! that walk are made here; the floating-point effects that go with them
//! (friction, bounce, the move buffer) are the integrator's, which applies
//! them between the calls in the order the walk reports them:
//!
//! 1. [`Motion::plan_step`] picks the next cell, or ends the walk;
//! 2. [`Model::advance`] moves into it, or reports a wall or a blocking
//!    particle;
//! 3. after a blocking particle, [`Model::settle`] lets the particles react
//!    and lets a particle at rest slide sideways or diagonally down.
use vstd::prelude::*;
use crate::material::{Material, density_of, is_fluid_spec};
use crate::model::{Model, ModelView, swapped, lemma_index_in_range, lemma_index_injective, lemma_index_decompose};
use crate::reaction::{reaction_view, first_fire, lemma_reaction_census, lemma_inert_reaction, lemma_water_puts_out_fire, lemma_reaction_keeps_shape};
use crate::census::{census, census_evolves, lemma_census_swap, lemma_census_evolves_trans, lemma_census_equal_evolves};

verus! {

/// The sign of `v`: -1, 0 or 1.
pub open spec fn sign(v: int) -> int {
    if v > 0 {
        1
    } else if v < 0 {
        -1
    } else {
        0
    }
}

/// The larger of the numbers of steps still to take along the two axes;
/// every planned step lowers it.
pub open spec fn steps_left(m: Motion) -> int {
    let ax: int = if m.steps_x < 0 { -m.steps_x } else { m.steps_x as int };
    let ay: int = if m.steps_y < 0 { -m.steps_y } else { m.steps_y as int };
    if ax > ay { ax } else { ay }
}

/// A particle's walk: where it is, where it is about to go, and how many
/// cells it has still to travel along each axis.
#[derive(Clone, Copy, Debug, PartialEq, Eq, Structural)]
pub struct Motion {
    pub x: isize,
    pub y: isize,
    pub next_x: isize,
    pub next_y: isize,
    pub steps_x: isize,
    pub steps_y: isize,
}

/// What the particle at `index` (of material `material`) met when its step
/// would leave the grid: `hit_x` is the material that stops it along the
/// x axis and `hit_y` along the y axis, where that direction is blocked.
#[derive(Clone, Copy, Debug, PartialEq, Eq, Structural)]
pub struct WallContact {
    pub index: usize,
    pub material: Material,
    pub hit_x: Option<Material>,
    pub hit_y: Option<Material>,
}

/// The outcome of one step of a walk.
#[derive(Clone, Copy, Debug, PartialEq, Eq, Structural)]
pub enum Advance {
    /// The step would leave the grid: the particle stays, and the walk ends.
    Wall(WallContact),
    /// The particle moved into an empty cell.
    Moved,
    /// The particle sank into a less dense one and the two swapped places;
    /// it is now at `index`, and `displaced` is what it passed through.
    Sank { index: usize, displaced: Material },
    /// A particle at least as dense is in the way; nothing has changed yet.
    Blocked { current: usize, target: usize },
}

/// What the particle at `(cx, cy)` meets when it tries to step to
/// `(tx, ty)`, axis by axis.
pub open spec fn wall_contact_of(v: ModelView, cx: int, cy: int, tx: int, ty: int) -> WallContact {
    WallContact {
        index: v.index(cx, cy) as usize,
        material: v.cell(cx, cy).material,
        hit_x: if !v.can_move(cx, cy, tx, cy) {
            Some(v.material_at(tx, cy))
        } else {
            None
        },
        hit_y: if !v.can_move(cx, cy, cx, ty) {
            Some(v.material_at(cx, ty))
        } else {
            None
        },
    }
}

/// Where a particle at rest at `(x, y)`, that cannot move straight down,
/// slides to: diagonally down to the left, else to the right, else (a fluid
/// only) sideways to the left, else to the right.
pub open spec fn slide_target(v: ModelView, x: int, y: int) -> Option<(int, int)> {
    if v.can_move(x, y, x - 1, y + 1) {
        Some((x - 1, y + 1))
    } else if v.can_move(x, y, x + 1, y + 1) {
        Some((x + 1, y + 1))
    } else if is_fluid_spec(v.cell(x, y).material) && v.can_move(x, y, x - 1, y) {
        Some((x - 1, y))
    } else if is_fluid_spec(v.cell(x, y).material) && v.can_move(x, y, x + 1, y) {
        Some((x + 1, y))
    } else {
        None
    }
}

/// What [`Model::settle`] makes of the world `old` and the walk `m`: the
/// reaction, then the slide of a resting particle or the end of the walk.
pub open spec fn settled(
    old: ModelView,
    m: Motion,
    at_rest: bool,
    new: ModelView,
    new_m: Motion,
    slid: Option<(usize, Material)>,
) -> bool {
    let (x, y) = (m.x as int, m.y as int);
    let r = reaction_view(old, x, y);
    let resting = at_rest || r.cell(x, y).material != old.cell(x, y).material;
    if resting && !r.can_move(x, y, x, y + 1) {
        &&& new_m == m
        &&& match slide_target(r, x, y) {
            Some((tx, ty)) => {
                &&& slid == Some((r.index(m.next_x as int, m.next_y as int) as usize, r.material_at(x, y + 1)))
                &&& new == r.with_cells(swapped(r.cells, r.index(x, y), r.index(tx, ty)))
            },
            None => {
                &&& slid is None
                &&& new == r
            },
        }
    } else {
        &&& slid is None
        &&& new == r
        &&& new_m == (Motion { steps_x: 0, steps_y: 0, ..m })
    }
}

/// Swapping two cells rearranges the grid without creating or destroying
/// any particle: the multiset of cells is unchanged.
pub proof fn lemma_swap_preserves_particles(s: Seq<crate::particle::Particle>, i: int, j: int)
    requires
        0 <= i < s.len(),
        0 <= j < s.len(),
    ensures
        swapped(s, i, j).to_multiset() == s.to_multiset(),
        swapped(s, i, j).len() == s.len(),
{
    broadcast use vstd::seq_lib::to_multiset_update, vstd::multiset::group_multiset_properties;

    let s1 = s.update(i, s[j]);
    assert(s1.to_multiset() == s.to_multiset().insert(s[j]).remove(s[i]));
    assert(s1[j] == s[j]);
    assert(s1.update(j, s[i]).to_multiset() == s1.to_multiset().insert(s[i]).remove(s[j]));
    let ms = s.to_multiset();
    assert(s.contains(s[i]));
    assert(s.contains(s[j]));
    broadcast use vstd::seq_lib::to_multiset_contains, vstd::multiset::group_multiset_axioms;

    assert(ms.count(s[i]) > 0);
    assert(ms.count(s[j]) > 0);
    assert(ms.insert(s[j]).remove(s[i]).insert(s[i]).remove(s[j]) =~= ms);
}

/// Swapping the same two cells twice restores the grid.
pub proof fn lemma_swap_involution(s: Seq<crate::particle::Particle>, i: int, j: int)
    requires
        0 <= i < s.len(),
        0 <= j < s.len(),
    ensures
        swapped(swapped(s, i, j), i, j) == s,
{
    assert(swapped(swapped(s, i, j), i, j) =~= s);
}

impl Motion {
    /// A walk from `(x, y)` of `steps_x` and `steps_y` cells.
    pub fn new(x: usize, y: usize, steps_x: isize, steps_y: isize) -> (m: Motion)
        requires
            x <= isize::MAX,
            y <= isize::MAX,
        ensures
            m == (Motion { x: x as isize, y: y as isize, next_x: x as isize, next_y: y as isize, steps_x, steps_y }),
    {
        Motion { x: x as isize, y: y as isize, next_x: x as isize, next_y: y as isize, steps_x, steps_y }
    }

    /// Plans the next step: one cell along each axis that has steps left, in
    /// the direction of the remaining steps. Returns the step taken, or
    /// `None` when no steps are left.
    pub fn plan_step(&mut self) -> (step: Option<(isize, isize)>)
        requires
            old(self).steps_x != isize::MIN,
            old(self).steps_y != isize::MIN,
            isize::MIN < old(self).x < isize::MAX,
            isize::MIN < old(self).y < isize::MAX,
        ensures
            step is None <==> old(self).steps_x == 0 && old(self).steps_y == 0,
            step is None ==> *final(self) == *old(self),
            step matches Some((sx, sy)) ==> {
                &&& sx == sign(old(self).steps_x as int)
                &&& sy == sign(old(self).steps_y as int)
                &&& *final(self) == (Motion {
                    next_x: (old(self).x + sx) as isize,
                    next_y: (old(self).y + sy) as isize,
                    steps_x: (old(self).steps_x - sx) as isize,
                    steps_y: (old(self).steps_y - sy) as isize,
                    ..*old(self)
                })
                &&& steps_left(*final(self)) < steps_left(*old(self))
            },
    {
        if self.steps_y == 0 && self.steps_x == 0 {
            return None;
        }
        let mut next_x = self.x;
        let mut next_y = self.y;
        let mut step_x: isize = 0;
        let mut step_y: isize = 0;
        if self.steps_x != 0 {
            step_x = if self.steps_x > 0 { 1 } else { -1 };
            next_x = next_x + step_x;
            self.steps_x = self.steps_x - step_x;
        }
        if self.steps_y != 0 {
            step_y = if self.steps_y > 0 { 1 } else { -1 };
            next_y = next_y + step_y;
            self.steps_y = self.steps_y - step_y;
        }
        self.next_x = next_x;
        self.next_y = next_y;
        Some((step_x, step_y))
    }
}

impl Model {
    /// What the particle at `(current_x, current_y)` meets when it tries to
    /// step to `(target_x, target_y)`: for each axis, whether it may move
    /// along it and, if not, the material that stops it.
    pub fn wall_collision(&self, current_x: isize, current_y: isize, target_x: isize, target_y: isize) -> (c:
        WallContact)
        requires
            self.wf(),
            self@.in_bounds(current_x as int, current_y as int),
        ensures
            c == wall_contact_of(self@, current_x as int, current_y as int, target_x as int, target_y as int),
    {
        let current_idx = self.get_index(current_x, current_y).unwrap();
        let material = self.particle_at(current_idx).material;
        let hit_x = if !self.can_move_to(current_x, current_y, target_x, current_y) {
            Some(self.get_material(target_x, current_y))
        } else {
            None
        };
        let hit_y = if !self.can_move_to(current_x, current_y, current_x, target_y) {
            Some(self.get_material(current_x, target_y))
        } else {
            None
        };
        WallContact { index: current_idx, material, hit_x, hit_y }
    }

    /// Takes the planned step of a walk: at the border the walk ends against
    /// the wall; into an empty cell, or through a less dense particle, the
    /// particle moves (swapping places); otherwise it is blocked.
    pub fn advance(&mut self, mv: &mut Motion) -> (a: Advance)
        requires
            old(self).wf(),
            old(self)@.in_bounds(old(mv).x as int, old(mv).y as int),
        ensures
            final(self).wf(),
            final(self)@.cells.to_multiset() == old(self)@.cells.to_multiset(),
            census(final(self)@.cells) == census(old(self)@.cells),
            final(self)@.in_bounds(final(mv).x as int, final(mv).y as int),
            ({
                let v = old(self)@;
                let m = *old(mv);
                let (x, y, nx, ny) = (m.x as int, m.y as int, m.next_x as int, m.next_y as int);
                if !v.in_bounds(nx, ny) {
                    &&& a == Advance::Wall(wall_contact_of(v, x, y, nx, ny))
                    &&& final(self)@ == v
                    &&& *final(mv) == (Motion { steps_x: 0, steps_y: 0, ..m })
                } else if v.cell(nx, ny).material == Material::Air {
                    &&& a == Advance::Moved
                    &&& final(self)@ == v.with_cells(swapped(v.cells, v.index(x, y), v.index(nx, ny)))
                    &&& *final(mv) == (Motion { x: m.next_x, y: m.next_y, ..m })
                } else if density_of(v.cell(x, y).material) > density_of(v.cell(nx, ny).material) {
                    &&& a == (Advance::Sank { index: v.index(nx, ny) as usize, displaced: v.cell(nx, ny).material })
                    &&& final(self)@ == v.with_cells(swapped(v.cells, v.index(x, y), v.index(nx, ny)))
                    &&& *final(mv) == (Motion { x: m.next_x, y: m.next_y, ..m })
                } else {
                    &&& a == (Advance::Blocked { current: v.index(x, y) as usize, target: v.index(nx, ny) as usize })
                    &&& final(self)@ == v
                    &&& *final(mv) == m
                }
            }),
    {
        let ghost v = self@;
        let current_x = mv.x;
        let current_y = mv.y;
        let next_x = mv.next_x;
        let next_y = mv.next_y;
        if !self.in_bounds(next_x, next_y) {
            let contact = self.wall_collision(current_x, current_y, next_x, next_y);
            mv.steps_x = 0;
            mv.steps_y = 0;
            return Advance::Wall(contact);
        }
        let current_idx = self.get_index(current_x, current_y).unwrap();
        let target_idx = self.get_index(next_x, next_y).unwrap();
        if self.is_empty(next_x as usize, next_y as usize) {
            self.swap_particles(current_x as usize, current_y as usize, next_x as usize, next_y as usize);
            proof {
                lemma_swap_preserves_particles(v.cells, current_idx as int, target_idx as int);
                lemma_census_swap(v.cells, current_idx as int, target_idx as int);
            }
            mv.x = next_x;
            mv.y = next_y;
            return Advance::Moved;
        }
        let current_density = self.particle_at(current_idx).material.density();
        let other = self.particle_at(target_idx).material;
        if current_density > other.density() {
            self.swap_particles(current_x as usize, current_y as usize, next_x as usize, next_y as usize);
            proof {
                lemma_swap_preserves_particles(v.cells, current_idx as int, target_idx as int);
                lemma_census_swap(v.cells, current_idx as int, target_idx as int);
            }
            mv.x = next_x;
            mv.y = next_y;
            Advance::Sank { index: target_idx, displaced: other }
        } else {
            Advance::Blocked { current: current_idx, target: target_idx }
        }
    }

    /// After a blocked step (and the collision the integrator resolves),
    /// lets the particle react with its neighbours. Then, if the particle is
    /// at rest and cannot move straight down, it slides to [`slide_target`],
    /// if there is one, and the walk goes on from the same position; the
    /// result is the cell whose velocity the slide's friction then acts on
    /// (the blocked target's index) and the material below, whose friction
    /// it is. A particle not at rest, or free to fall, ends its walk.
    ///
    /// `at_rest` tells whether the particle's vertical velocity is zero after
    /// the collision; a particle that evaporates in the reaction is air at
    /// rest, and so at rest whatever `at_rest` says.
    pub fn settle(&mut self, mv: &mut Motion, at_rest: bool) -> (slid: Option<(usize, Material)>)
        requires
            old(self).wf(),
            old(self)@.in_bounds(old(mv).x as int, old(mv).y as int),
            old(self)@.in_bounds(old(mv).next_x as int, old(mv).next_y as int),
        ensures
            final(self).wf(),
            final(self)@.in_bounds(final(mv).x as int, final(mv).y as int),
            final(self)@.cells.to_multiset() == reaction_view(old(self)@, old(mv).x as int, old(mv).y as int).cells.to_multiset(),
            census_evolves(old(self)@.cells, final(self)@.cells),
            settled(old(self)@, *old(mv), at_rest, final(self)@, *final(mv), slid),
    {
        let ghost v0 = self@;
        let current_x = mv.x;
        let current_y = mv.y;
        let current_idx = self.get_index(current_x, current_y).unwrap();
        let material_before = self.particle_at(current_idx).material;
        self.resolve_chemical_reaction(current_x, current_y, mv.next_x, mv.next_y);
        proof {
            lemma_reaction_census(v0, current_x as int, current_y as int, 9);
        }
        let target_idx = self.get_index(mv.next_x, mv.next_y).unwrap();
        let material = self.particle_at(current_idx).material;
        let open_below = self.can_move_to(current_x, current_y, current_x, current_y + 1);
        let open_diag_left = self.can_move_to(current_x, current_y, current_x - 1, current_y + 1);
        let open_diag_right = self.can_move_to(current_x, current_y, current_x + 1, current_y + 1);
        let open_left = self.can_move_to(current_x, current_y, current_x - 1, current_y);
        let open_right = self.can_move_to(current_x, current_y, current_x + 1, current_y);
        let evaporated = material != material_before;
        if (at_rest || evaporated) && !open_below {
            let targ: Option<(usize, usize)> = if open_diag_left {
                Some(((current_x - 1) as usize, (current_y + 1) as usize))
            } else if open_diag_right {
                Some(((current_x + 1) as usize, (current_y + 1) as usize))
            } else if material.is_fluid() && open_left {
                Some(((current_x - 1) as usize, current_y as usize))
            } else if material.is_fluid() && open_right {
                Some(((current_x + 1) as usize, current_y as usize))
            } else {
                None
            };
            if let Some((targ_x, targ_y)) = targ {
                let below = self.get_material(current_x, current_y + 1);
                let ghost r = self@;
                proof {
                    lemma_index_in_range(r.width as int, r.height as int, current_x as int, current_y as int);
                    lemma_index_in_range(r.width as int, r.height as int, targ_x as int, targ_y as int);
                    lemma_swap_preserves_particles(r.cells, r.index(current_x as int, current_y as int), r.index(targ_x as int, targ_y as int));
                    lemma_census_swap(r.cells, r.index(current_x as int, current_y as int), r.index(targ_x as int, targ_y as int));
                    lemma_census_equal_evolves(r.cells, swapped(r.cells, r.index(current_x as int, current_y as int), r.index(targ_x as int, targ_y as int)));
                    lemma_census_evolves_trans(v0.cells, r.cells, swapped(r.cells, r.index(current_x as int, current_y as int), r.index(targ_x as int, targ_y as int)));
                }
                self.swap_particles(current_x as usize, current_y as usize, targ_x, targ_y);
                Some((target_idx, below))
            } else {
                None
            }
        } else {
            mv.steps_x = 0;
            mv.steps_y = 0;
            None
        }
    }
}

/// Whether a particle of material `mover` may enter `(x, y)`: the cell is
/// in the grid and is empty or holds something strictly less dense.
pub open spec fn enterable(v: ModelView, mover: Material, x: int, y: int) -> bool {
    v.in_bounds(x, y) && (v.cell(x, y).material == Material::Air || density_of(mover) > density_of(
        v.cell(x, y).material,
    ))
}

/// What stops a particle at a wall, axis by axis: it is stopped along an
/// axis exactly when the cell one step along that axis alone cannot be
/// entered, and then by what that cell holds (a wall outside the grid),
/// which is never air.
pub proof fn lemma_wall_contact_axes(v: ModelView, cx: int, cy: int, tx: int, ty: int)
    requires
        v.wf(),
        v.in_bounds(cx, cy),
    ensures
        ({
            let c = wall_contact_of(v, cx, cy, tx, ty);
            let p = v.cell(cx, cy).material;
            &&& c.index as int == v.index(cx, cy)
            &&& c.material == p
            &&& c.hit_x is None <==> enterable(v, p, tx, cy)
            &&& c.hit_y is None <==> enterable(v, p, cx, ty)
            &&& c.hit_x matches Some(m) ==> m != Material::Air && m == (if v.in_bounds(tx, cy) {
                v.cell(tx, cy).material
            } else {
                Material::Wall
            })
            &&& c.hit_y matches Some(m) ==> m != Material::Air && m == (if v.in_bounds(cx, ty) {
                v.cell(cx, ty).material
            } else {
                Material::Wall
            })
        }),
{
    lemma_index_in_range(v.width as int, v.height as int, cx, cy);
}

/// A resting particle that cannot fall straight down rolls: diagonally
/// down to the left if it can enter that cell, else diagonally down to the
/// right, trading places with what was there; the walk goes on from the
/// same position. A particle that is not a fluid and can go neither way
/// stays. (Stated for particles that neither burn nor quench anything:
/// neither fire nor water.)
pub proof fn lemma_resting_particle_rolls(
    old: ModelView,
    m: Motion,
    new: ModelView,
    new_m: Motion,
    slid: Option<(usize, Material)>,
)
    requires
        old.wf(),
        old.in_bounds(m.x as int, m.y as int),
        old.in_bounds(m.next_x as int, m.next_y as int),
        settled(old, m, true, new, new_m, slid),
        old.cell(m.x as int, m.y as int).material != Material::Fire,
        old.cell(m.x as int, m.y as int).material != Material::Water,
        !enterable(old, old.cell(m.x as int, m.y as int).material, m.x as int, m.y + 1),
    ensures
        new_m == m,
        ({
            let (x, y) = (m.x as int, m.y as int);
            let p = old.cell(x, y).material;
            let below = if old.in_bounds(x, y + 1) { old.cell(x, y + 1).material } else { Material::Wall };
            &&& enterable(old, p, x - 1, y + 1) ==> {
                &&& new.cell(x - 1, y + 1) == old.cell(x, y)
                &&& new.cell(x, y) == old.cell(x - 1, y + 1)
                &&& slid == Some((old.index(m.next_x as int, m.next_y as int) as usize, below))
            }
            &&& !enterable(old, p, x - 1, y + 1) && enterable(old, p, x + 1, y + 1) ==> {
                &&& new.cell(x + 1, y + 1) == old.cell(x, y)
                &&& new.cell(x, y) == old.cell(x + 1, y + 1)
                &&& slid == Some((old.index(m.next_x as int, m.next_y as int) as usize, below))
            }
            &&& !enterable(old, p, x - 1, y + 1) && !enterable(old, p, x + 1, y + 1) && p != Material::Water
                ==> new == old && slid is None
        }),
{
    let (x, y) = (m.x as int, m.y as int);
    lemma_inert_reaction(old, x, y, 9);
    assert(reaction_view(old, x, y) == old);
    let (w, h) = (old.width as int, old.height as int);
    lemma_index_in_range(w, h, x, y);
    if old.in_bounds(x - 1, y + 1) {
        lemma_index_in_range(w, h, x - 1, y + 1);
        if old.index(x, y) == old.index(x - 1, y + 1) {
            lemma_index_injective(w, x, y, x - 1, y + 1);
        }
    }
    if old.in_bounds(x + 1, y + 1) {
        lemma_index_in_range(w, h, x + 1, y + 1);
        if old.index(x, y) == old.index(x + 1, y + 1) {
            lemma_index_injective(w, x, y, x + 1, y + 1);
        }
    }
}

/// With no fire around, water reacts with nothing.
pub proof fn lemma_water_without_fire_is_inert(v: ModelView, cx: int, cy: int)
    requires
        v.wf(),
        v.in_bounds(cx, cy),
        v.cell(cx, cy).material == Material::Water,
        first_fire(v, cx, cy, 9) is None,
    ensures
        reaction_view(v, cx, cy) == v,
{
    lemma_water_puts_out_fire(v, cx, cy, 9);
    lemma_reaction_keeps_shape(v, cx, cy, 9);
    let r = reaction_view(v, cx, cy);
    assert forall|k: int| 0 <= k < v.cells.len() implies r.cells[k] == v.cells[k] by {
        lemma_index_decompose(v.width as int, v.height as int, k);
        let x = k % (v.width as int);
        let y = k / (v.width as int);
        assert(r.cell(x, y) == v.cell(x, y));
    }
    assert(r.cells =~= v.cells);
}

/// Resting water with no fire around, that can fall neither straight nor
/// diagonally down, flows sideways: to the left if it can enter that cell,
/// else to the right, trading places with what was there.
pub proof fn lemma_resting_water_flows(
    old: ModelView,
    m: Motion,
    new: ModelView,
    new_m: Motion,
    slid: Option<(usize, Material)>,
)
    requires
        old.wf(),
        old.in_bounds(m.x as int, m.y as int),
        old.in_bounds(m.next_x as int, m.next_y as int),
        settled(old, m, true, new, new_m, slid),
        old.cell(m.x as int, m.y as int).material == Material::Water,
        first_fire(old, m.x as int, m.y as int, 9) is None,
        !enterable(old, Material::Water, m.x as int, m.y + 1),
        !enterable(old, Material::Water, m.x - 1, m.y + 1),
        !enterable(old, Material::Water, m.x + 1, m.y + 1),
    ensures
        new_m == m,
        ({
            let (x, y) = (m.x as int, m.y as int);
            &&& enterable(old, Material::Water, x - 1, y) ==> {
                &&& new.cell(x - 1, y) == old.cell(x, y)
                &&& new.cell(x, y) == old.cell(x - 1, y)
                &&& slid is Some
            }
            &&& !enterable(old, Material::Water, x - 1, y) && enterable(old, Material::Water, x + 1, y) ==> {
                &&& new.cell(x + 1, y) == old.cell(x, y)
                &&& new.cell(x, y) == old.cell(x + 1, y)
                &&& slid is Some
            }
            &&& !enterable(old, Material::Water, x - 1, y) && !enterable(old, Material::Water, x + 1, y) ==> new
                == old && slid is None
        }),
{
    let (x, y) = (m.x as int, m.y as int);
    lemma_water_without_fire_is_inert(old, x, y);
    let (w, h) = (old.width as int, old.height as int);
    lemma_index_in_range(w, h, x, y);
    if old.in_bounds(x - 1, y) {
        lemma_index_in_range(w, h, x - 1, y);
        if old.index(x, y) == old.index(x - 1, y) {
            lemma_index_injective(w, x, y, x - 1, y);
        }
    }
    if old.in_bounds(x + 1, y) {
        lemma_index_in_range(w, h, x + 1, y);
        if old.index(x, y) == old.index(x + 1, y) {
            lemma_index_injective(w, x, y, x + 1, y);
        }
    }
}

} // verus!
