//! Reactions between a particle and its eight neighbours: fire sets
//! neighbouring wood alight, and water puts out a neighbouring fire and
//! evaporates doing so.
//!
//! The neighbours are visited column by column, left to right, and within a
//! column top to bottom; visit `k` (0 to 8) is the cell at offset
//! `(k / 3 - 1, k % 3 - 1)`, and visit 4 is the particle itself, which is
//! skipped. Each visit sees what the earlier ones left: once water has put
//! out a fire it is air, and puts out no other.
use vstd::prelude::*;
use crate::material::{Material, is_combustable_spec};
use crate::particle::{Particle, air};
use crate::model::{Model, ModelView, lemma_index_in_range, lemma_index_injective};
use crate::census::{
    census_evolves,
    lemma_census_burn,
    lemma_census_quench,
    lemma_census_evolves_refl,
    lemma_census_evolves_trans,
};

verus! {

/// `(x, y)` is one of the eight cells around `(cx, cy)`.
pub open spec fn is_near(cx: int, cy: int, x: int, y: int) -> bool {
    &&& -1 <= x - cx <= 1
    &&& -1 <= y - cy <= 1
    &&& !(x == cx && y == cy)
}

/// Column of visit `k` around column `cx`.
pub open spec fn visit_x(cx: int, k: int) -> int {
    cx + k / 3 - 1
}

/// Row of visit `k` around row `cy`.
pub open spec fn visit_y(cy: int, k: int) -> int {
    cy + k % 3 - 1
}

/// The visit at which the cell `(x, y)` near `(cx, cy)` is reached.
pub open spec fn visit_rank(cx: int, cy: int, x: int, y: int) -> int {
    3 * (x - cx + 1) + (y - cy + 1)
}

/// One visit: the particle at `(cx, cy)` meets the cell `(nx, ny)`.
pub open spec fn react_step(v: ModelView, cx: int, cy: int, nx: int, ny: int) -> ModelView {
    let current = v.cell(cx, cy).material;
    if !(nx == cx && ny == cy) && v.in_bounds(nx, ny) {
        let n = v.cell(nx, ny);
        if current == Material::Fire && is_combustable_spec(n.material) {
            v.with_cells(v.cells.update(v.index(nx, ny), Particle { material: Material::Fire, ..n }))
        } else if current == Material::Water && n.material == Material::Fire {
            v.with_cells(v.cells.update(v.index(nx, ny), air()).update(v.index(cx, cy), air()))
        } else {
            v
        }
    } else {
        v
    }
}

/// The world after the first `k` visits around `(cx, cy)`.
pub open spec fn reaction_after(v: ModelView, cx: int, cy: int, k: nat) -> ModelView
    decreases k,
{
    if k == 0 {
        v
    } else {
        let j = k - 1;
        react_step(reaction_after(v, cx, cy, (k - 1) as nat), cx, cy, visit_x(cx, j), visit_y(cy, j))
    }
}

/// The world after the particle at `(cx, cy)` has reacted with all its
/// neighbours.
pub open spec fn reaction_view(v: ModelView, cx: int, cy: int) -> ModelView {
    reaction_after(v, cx, cy, 9)
}

/// The first of the first `k` visits around `(cx, cy)` that finds fire in
/// the grid, if any.
pub open spec fn first_fire(v: ModelView, cx: int, cy: int, k: nat) -> Option<int>
    decreases k,
{
    if k == 0 {
        None
    } else {
        let j = k - 1;
        match first_fire(v, cx, cy, (k - 1) as nat) {
            Some(r) => Some(r),
            None => if j != 4 && v.in_bounds(visit_x(cx, j), visit_y(cy, j)) && v.cell(
                visit_x(cx, j),
                visit_y(cy, j),
            ).material == Material::Fire {
                Some(j)
            } else {
                None
            },
        }
    }
}

impl Model {
    /// Lets the particle at `(current_x, current_y)` react with its eight
    /// neighbours, in visit order: fire sets neighbouring wood alight, and
    /// water puts out the first neighbouring fire it meets and evaporates,
    /// both becoming air at rest.
    pub fn resolve_chemical_reaction(
        &mut self,
        current_x: isize,
        current_y: isize,
        _target_x: isize,
        _target_y: isize,
    )
        requires
            old(self).wf(),
            old(self)@.in_bounds(current_x as int, current_y as int),
        ensures
            final(self).wf(),
            final(self)@ == reaction_view(old(self)@, current_x as int, current_y as int),
            final(self)@.state == old(self)@.state,
            final(self)@.width == old(self)@.width,
            final(self)@.height == old(self)@.height,
            ({
                let (v, cx, cy) = (old(self)@, current_x as int, current_y as int);
                let w = final(self)@;
                let current = v.cell(cx, cy).material;
                &&& current == Material::Fire ==> forall|x: int, y: int|
                    #![trigger w.cell(x, y)]
                    v.in_bounds(x, y) ==> w.cell(x, y) == (if is_near(cx, cy, x, y) && is_combustable_spec(
                        v.cell(x, y).material,
                    ) {
                        Particle { material: Material::Fire, ..v.cell(x, y) }
                    } else {
                        v.cell(x, y)
                    })
                &&& current == Material::Water ==> forall|x: int, y: int|
                    #![trigger w.cell(x, y)]
                    v.in_bounds(x, y) ==> w.cell(x, y) == match first_fire(v, cx, cy, 9) {
                        None => v.cell(x, y),
                        Some(r) => if (x == cx && y == cy) || (x == visit_x(cx, r) && y == visit_y(cy, r)) {
                            air()
                        } else {
                            v.cell(x, y)
                        },
                    }
                &&& current != Material::Fire && current != Material::Water ==> w == v
            }),
    {
        let ghost v0 = self@;
        let ghost cx = current_x as int;
        let ghost cy = current_y as int;
        let current_idx = self.get_index(current_x, current_y).unwrap();
        let mut i: isize = -1;
        while i <= 1
            invariant
                self.wf(),
                -1 <= i <= 2,
                v0.in_bounds(cx, cy),
                current_x == cx,
                current_y == cy,
                current_idx == v0.index(cx, cy),
                self@.state == v0.state,
                self@.width == v0.width,
                self@.height == v0.height,
                self@ == reaction_after(v0, cx, cy, (3 * (i + 1)) as nat),
            decreases 2 - i,
        {
            let neighbor_x = i + current_x;
            let mut j: isize = -1;
            while j <= 1
                invariant
                    self.wf(),
                    -1 <= i <= 1,
                    -1 <= j <= 2,
                    v0.in_bounds(cx, cy),
                    current_x == cx,
                    current_y == cy,
                    neighbor_x == cx + i,
                    current_idx == v0.index(cx, cy),
                    self@.state == v0.state,
                    self@.width == v0.width,
                    self@.height == v0.height,
                    self@ == reaction_after(v0, cx, cy, (3 * (i + 1) + j + 1) as nat),
                decreases 2 - j,
            {
                let ghost before = self@;
                let ghost k: int = 3 * (i + 1) + j + 1;
                proof {
                    lemma_index_in_range(v0.width as int, v0.height as int, cx, cy);
                    assert(k / 3 == i + 1 && k % 3 == j + 1);
                }
                let current_mat = self.particle_at(current_idx).material;
                let neighbor_y = j + current_y;
                if !(neighbor_x == current_x && neighbor_y == current_y) {
                    if let Some(neighbor_idx) = self.get_index(neighbor_x, neighbor_y) {
                        let mut neighbor = self.particle_at(neighbor_idx);
                        if current_mat == Material::Fire && neighbor.material.is_combustable() {
                            neighbor.material = Material::Fire;
                            self.set_particle(neighbor_x as usize, neighbor_y as usize, neighbor);
                        } else if current_mat == Material::Water && neighbor.material == Material::Fire {
                            self.set_particle(neighbor_x as usize, neighbor_y as usize, Particle::default());
                            self.set_particle(current_x as usize, current_y as usize, Particle::default());
                        }
                    }
                }
                assert(self@ == react_step(before, cx, cy, visit_x(cx, k), visit_y(cy, k)));
                j += 1;
            }
            i += 1;
        }
        proof {
            let current = v0.cell(cx, cy).material;
            if current == Material::Fire {
                lemma_fire_spreads(v0, cx, cy, 9);
                assert forall|x: int, y: int| #![trigger self@.cell(x, y)] v0.in_bounds(x, y) && is_near(cx, cy, x, y)
                    implies visit_rank(cx, cy, x, y) < 9 by {
                    lemma_visit_rank(cx, cy, x, y);
                }
            } else if current == Material::Water {
                lemma_water_puts_out_fire(v0, cx, cy, 9);
            } else {
                lemma_inert_reaction(v0, cx, cy, 9);
            }
        }
    }
}

/// The first `k` visits of a reaction leave the size and state of the world
/// as they were.
pub proof fn lemma_reaction_keeps_shape(v: ModelView, cx: int, cy: int, k: nat)
    requires
        v.wf(),
        v.in_bounds(cx, cy),
    ensures
        reaction_after(v, cx, cy, k).width == v.width,
        reaction_after(v, cx, cy, k).height == v.height,
        reaction_after(v, cx, cy, k).state == v.state,
        reaction_after(v, cx, cy, k).cells.len() == v.cells.len(),
    decreases k,
{
    if k > 0 {
        let j = k - 1;
        lemma_reaction_keeps_shape(v, cx, cy, j as nat);
        lemma_index_in_range(v.width as int, v.height as int, cx, cy);
        if v.in_bounds(visit_x(cx, j), visit_y(cy, j)) {
            lemma_index_in_range(v.width as int, v.height as int, visit_x(cx, j), visit_y(cy, j));
        }
    }
}

/// A reaction changes the material counts only by burning wood into fire
/// and by water and fire becoming air together.
pub proof fn lemma_reaction_census(v: ModelView, cx: int, cy: int, k: nat)
    requires
        v.wf(),
        v.in_bounds(cx, cy),
    ensures
        census_evolves(v.cells, reaction_after(v, cx, cy, k).cells),
    decreases k,
{
    if k == 0 {
        lemma_census_evolves_refl(v.cells);
    } else {
        let j = k - 1;
        let prev = reaction_after(v, cx, cy, j as nat);
        lemma_reaction_census(v, cx, cy, j as nat);
        lemma_reaction_keeps_shape(v, cx, cy, j as nat);
        let (nx, ny) = (visit_x(cx, j), visit_y(cy, j));
        let next = react_step(prev, cx, cy, nx, ny);
        if !(nx == cx && ny == cy) && prev.in_bounds(nx, ny) {
            lemma_index_in_range(v.width as int, v.height as int, nx, ny);
            lemma_index_in_range(v.width as int, v.height as int, cx, cy);
            let n = prev.cell(nx, ny);
            let current = prev.cell(cx, cy).material;
            if current == Material::Fire && is_combustable_spec(n.material) {
                lemma_census_burn(prev.cells, prev.index(nx, ny), Particle { material: Material::Fire, ..n });
            } else if current == Material::Water && n.material == Material::Fire {
                lemma_census_quench(prev.cells, prev.index(nx, ny), prev.index(cx, cy), air());
            } else {
                lemma_census_evolves_refl(prev.cells);
            }
        } else {
            lemma_census_evolves_refl(prev.cells);
        }
        lemma_census_evolves_trans(v.cells, prev.cells, next.cells);
    }
}

/// Every cell near `(cx, cy)` is reached by exactly the visit of its rank.
pub proof fn lemma_visit_rank(cx: int, cy: int, x: int, y: int)
    requires
        -1 <= x - cx <= 1,
        -1 <= y - cy <= 1,
    ensures
        0 <= visit_rank(cx, cy, x, y) < 9,
        visit_x(cx, visit_rank(cx, cy, x, y)) == x,
        visit_y(cy, visit_rank(cx, cy, x, y)) == y,
        visit_rank(cx, cy, x, y) == 4 <==> (x == cx && y == cy),
{
}

/// Fire sets every neighbouring wood alight, each keeping its motion, and
/// changes nothing else.
pub proof fn lemma_fire_spreads(v: ModelView, cx: int, cy: int, k: nat)
    requires
        v.wf(),
        v.in_bounds(cx, cy),
        v.cell(cx, cy).material == Material::Fire,
        k <= 9,
    ensures
        forall|x: int, y: int|
            #![trigger reaction_after(v, cx, cy, k).cell(x, y)]
            v.in_bounds(x, y) ==> reaction_after(v, cx, cy, k).cell(x, y) == (if is_near(cx, cy, x, y)
                && visit_rank(cx, cy, x, y) < k && is_combustable_spec(v.cell(x, y).material) {
                Particle { material: Material::Fire, ..v.cell(x, y) }
            } else {
                v.cell(x, y)
            }),
    decreases k,
{
    if k > 0 {
        let j = k - 1;
        let prev = reaction_after(v, cx, cy, j as nat);
        lemma_fire_spreads(v, cx, cy, j as nat);
        lemma_reaction_keeps_shape(v, cx, cy, j as nat);
        let (nx, ny) = (visit_x(cx, j), visit_y(cy, j));
        assert(prev.cell(cx, cy) == v.cell(cx, cy));
        if !(nx == cx && ny == cy) && v.in_bounds(nx, ny) {
            lemma_visit_rank(cx, cy, nx, ny);
            assert(prev.cell(nx, ny) == v.cell(nx, ny));
        }
        assert forall|x: int, y: int| v.in_bounds(x, y) implies #[trigger] reaction_after(v, cx, cy, k).cell(
            x,
            y,
        ) == (if is_near(cx, cy, x, y) && visit_rank(cx, cy, x, y) < k && is_combustable_spec(
            v.cell(x, y).material,
        ) {
            Particle { material: Material::Fire, ..v.cell(x, y) }
        } else {
            v.cell(x, y)
        }) by {
            assert(prev.cell(x, y) == (if is_near(cx, cy, x, y) && visit_rank(cx, cy, x, y) < j
                && is_combustable_spec(v.cell(x, y).material) {
                Particle { material: Material::Fire, ..v.cell(x, y) }
            } else {
                v.cell(x, y)
            }));
            if -1 <= x - cx <= 1 && -1 <= y - cy <= 1 {
                lemma_visit_rank(cx, cy, x, y);
            }
            if !(nx == cx && ny == cy) && v.in_bounds(nx, ny) {
                lemma_index_in_range(v.width as int, v.height as int, x, y);
                lemma_index_in_range(v.width as int, v.height as int, nx, ny);
                if v.index(x, y) == v.index(nx, ny) {
                    lemma_index_injective(v.width as int, x, y, nx, ny);
                }
            }
        }
    }
}

/// Water puts out the first neighbouring fire in visit order and
/// evaporates: both become air at rest, and nothing else changes. With no
/// fire around, nothing changes at all.
pub proof fn lemma_water_puts_out_fire(v: ModelView, cx: int, cy: int, k: nat)
    requires
        v.wf(),
        v.in_bounds(cx, cy),
        v.cell(cx, cy).material == Material::Water,
        k <= 9,
    ensures
        forall|x: int, y: int|
            #![trigger reaction_after(v, cx, cy, k).cell(x, y)]
            v.in_bounds(x, y) ==> reaction_after(v, cx, cy, k).cell(x, y) == match first_fire(v, cx, cy, k) {
                None => v.cell(x, y),
                Some(r) => if (x == cx && y == cy) || (x == visit_x(cx, r) && y == visit_y(cy, r)) {
                    air()
                } else {
                    v.cell(x, y)
                },
            },
        first_fire(v, cx, cy, k) matches Some(r) ==> {
            &&& 0 <= r < k
            &&& r != 4
            &&& v.in_bounds(visit_x(cx, r), visit_y(cy, r))
            &&& v.cell(visit_x(cx, r), visit_y(cy, r)).material == Material::Fire
        },
        first_fire(v, cx, cy, k) is None ==> forall|x: int, y: int|
            is_near(cx, cy, x, y) && v.in_bounds(x, y) && visit_rank(cx, cy, x, y) < k ==> #[trigger] v.cell(
                x,
                y,
            ).material != Material::Fire,
    decreases k,
{
    if k > 0 {
        let j = k - 1;
        let prev = reaction_after(v, cx, cy, j as nat);
        lemma_water_puts_out_fire(v, cx, cy, j as nat);
        lemma_reaction_keeps_shape(v, cx, cy, j as nat);
        let (nx, ny) = (visit_x(cx, j), visit_y(cy, j));
        lemma_index_in_range(v.width as int, v.height as int, cx, cy);
        if !(nx == cx && ny == cy) && v.in_bounds(nx, ny) {
            lemma_visit_rank(cx, cy, nx, ny);
            lemma_index_in_range(v.width as int, v.height as int, nx, ny);
            if v.index(cx, cy) == v.index(nx, ny) {
                lemma_index_injective(v.width as int, cx, cy, nx, ny);
            }
        }
        assert forall|x: int, y: int| v.in_bounds(x, y) implies #[trigger] reaction_after(v, cx, cy, k).cell(
            x,
            y,
        ) == match first_fire(v, cx, cy, k) {
            None => v.cell(x, y),
            Some(r) => if (x == cx && y == cy) || (x == visit_x(cx, r) && y == visit_y(cy, r)) {
                air()
            } else {
                v.cell(x, y)
            },
        } by {
            assert(prev.cell(x, y) == match first_fire(v, cx, cy, j as nat) {
                None => v.cell(x, y),
                Some(r) => if (x == cx && y == cy) || (x == visit_x(cx, r) && y == visit_y(cy, r)) {
                    air()
                } else {
                    v.cell(x, y)
                },
            });
            assert(prev.cell(cx, cy) == match first_fire(v, cx, cy, j as nat) {
                None => v.cell(cx, cy),
                Some(r) => air(),
            });
            lemma_index_in_range(v.width as int, v.height as int, x, y);
            if !(nx == cx && ny == cy) && v.in_bounds(nx, ny) {
                if v.index(x, y) == v.index(nx, ny) {
                    lemma_index_injective(v.width as int, x, y, nx, ny);
                }
                if v.index(x, y) == v.index(cx, cy) {
                    lemma_index_injective(v.width as int, x, y, cx, cy);
                }
            }
        }
        if first_fire(v, cx, cy, k) is None {
            assert forall|x: int, y: int|
                is_near(cx, cy, x, y) && v.in_bounds(x, y) && visit_rank(cx, cy, x, y) < k implies #[trigger] v.cell(
                x,
                y,
            ).material != Material::Fire by {
                lemma_visit_rank(cx, cy, x, y);
            }
        }
    }
}

/// A particle that is neither fire nor water reacts with nothing.
pub proof fn lemma_inert_reaction(v: ModelView, cx: int, cy: int, k: nat)
    requires
        v.cell(cx, cy).material != Material::Fire,
        v.cell(cx, cy).material != Material::Water,
    ensures
        reaction_after(v, cx, cy, k) == v,
    decreases k,
{
    if k > 0 {
        lemma_inert_reaction(v, cx, cy, (k - 1) as nat);
    }
}

} // verus!
