//! The world: a row-major grid of particles, and the rules that act on it.
use vstd::prelude::*;
use crate::material::{Material, density_of};
use crate::particle::{Particle, Velocity, MoveBuffer, air};
use crate::census::{census, materials, lemma_census_same_material};

verus! {

/// What the world is asked to do next.
#[derive(Clone, Copy, Debug, PartialEq, Eq, Structural)]
pub enum Message {
    /// The terminal now has this many columns and rows of characters.
    Resize(usize, usize),
    /// Advance the simulation by one time step.
    Tick,
    /// Stop.
    Quit,
}

/// Whether the simulation is still running.
#[derive(Clone, Copy, Debug, PartialEq, Eq, Structural)]
pub enum State {
    Running,
    Done,
}

impl Default for State {
    fn default() -> (s: Self)
        ensures
            s == State::Running,
    {
        State::Running
    }
}

/// Rows of cells drawn in one row of terminal characters (braille dots).
pub const MARKER_HEIGHT: usize = 4;

/// The world: `width * height` cells in row-major order, row 0 at the top.
#[derive(Clone, Debug, PartialEq)]
pub struct Model {
    pub state: State,
    width: usize,
    height: usize,
    particles: Vec<Particle>,
}

/// The mathematical content of a [`Model`].
pub struct ModelView {
    pub state: State,
    pub width: nat,
    pub height: nat,
    pub cells: Seq<Particle>,
}

impl ModelView {
    /// The grid holds exactly `width * height` cells and its coordinates and
    /// indices fit in an `isize`.
    pub open spec fn wf(self) -> bool {
        &&& self.cells.len() == self.width * self.height
        &&& self.width <= isize::MAX
        &&& self.height <= isize::MAX
        &&& self.width * self.height <= isize::MAX
    }

    pub open spec fn in_bounds(self, x: int, y: int) -> bool {
        0 <= x < self.width && 0 <= y < self.height
    }

    /// Row-major index of a cell.
    pub open spec fn index(self, x: int, y: int) -> int {
        y * self.width + x
    }

    pub open spec fn cell(self, x: int, y: int) -> Particle {
        self.cells[self.index(x, y)]
    }

    /// The material at a position; everything outside the grid is wall.
    pub open spec fn material_at(self, x: int, y: int) -> Material {
        if self.in_bounds(x, y) {
            self.cell(x, y).material
        } else {
            Material::Wall
        }
    }

    /// A particle at `(x1, y1)` may enter `(x2, y2)` when that cell is in the
    /// grid and is empty or holds something strictly less dense.
    pub open spec fn can_move(self, x1: int, y1: int, x2: int, y2: int) -> bool {
        &&& self.in_bounds(x2, y2)
        &&& (self.cell(x2, y2).material == Material::Air || density_of(self.material_at(x1, y1))
            > density_of(self.cell(x2, y2).material))
    }

    /// The same world with other cells.
    pub open spec fn with_cells(self, cells: Seq<Particle>) -> ModelView {
        ModelView { state: self.state, width: self.width, height: self.height, cells }
    }
}

/// `new` is the world `old` resized to `new_width` by `new_height` cells:
/// unchanged if the size is the same, and otherwise with the old content
/// centred in the new grid.
pub open spec fn is_resized(old: ModelView, new: ModelView, new_width: int, new_height: int) -> bool {
    &&& new.wf()
    &&& new.state == old.state
    &&& old.width == new_width && old.height == new_height ==> new == old
    &&& !(old.width == new_width && old.height == new_height) ==> {
        &&& new.width == new_width
        &&& new.height == new_height
        &&& forall|x: int, y: int|
            #![trigger new.cell(x, y)]
            new.in_bounds(x, y) ==> new.cell(x, y) == resized_cell(old, new_width, new_height, x, y)
    }
}

/// The cells after the spawned particles `pending` are placed in order,
/// each only where its position is in the grid and still holds air.
pub open spec fn placed(v: ModelView, pending: Seq<(usize, usize, Particle)>) -> Seq<Particle>
    decreases pending.len(),
{
    if pending.len() == 0 {
        v.cells
    } else {
        let cells = placed(v, pending.drop_last());
        let (x, y, p) = pending.last();
        if v.in_bounds(x as int, y as int) && cells[v.index(x as int, y as int)].material
            == Material::Air {
            cells.update(v.index(x as int, y as int), p)
        } else {
            cells
        }
    }
}

/// The positions `(column, row)` of the first `n` cells that hold
/// `material`, in row-major order.
pub open spec fn positions_of(cells: Seq<Particle>, w: nat, material: Material, n: int) -> Seq<(usize, usize)>
    decreases n,
{
    if n <= 0 {
        seq![]
    } else {
        let prev = positions_of(cells, w, material, n - 1);
        if cells[n - 1].material == material {
            prev.push((((n - 1) % (w as int)) as usize, ((n - 1) / (w as int)) as usize))
        } else {
            prev
        }
    }
}

/// `new` is what handling `msg` makes of the world `old`.
pub open spec fn is_update(old: ModelView, new: ModelView, msg: Message) -> bool {
    match msg {
        Message::Resize(w, h) => is_resized(old, new, w as int, h * MARKER_HEIGHT),
        Message::Tick => new == old,
        Message::Quit => new == (ModelView { state: State::Done, ..old }),
    }
}

/// How far a span of `old` cells is shifted to be centred in a span of
/// `new` cells: half the difference, rounded toward zero.
pub open spec fn center_offset(new: int, old: int) -> int {
    if new >= old {
        (new - old) / 2
    } else {
        -((old - new) / 2)
    }
}

/// The cell at `(x, y)` after the world is resized to `new_width` by
/// `new_height` cells: the old content is centred in the new grid; what
/// falls outside it is lost, and every cell that no particle reaches, or
/// that only air reaches, holds air at rest.
pub open spec fn resized_cell(old: ModelView, new_width: int, new_height: int, x: int, y: int) -> Particle {
    let sx = x - center_offset(new_width, old.width as int);
    let sy = y - center_offset(new_height, old.height as int);
    if old.in_bounds(sx, sy) && old.cell(sx, sy).material != Material::Air {
        old.cell(sx, sy)
    } else {
        air()
    }
}

/// The cell at column `x`, row `y` of a row-major grid `w` cells wide.
pub open spec fn grid_cell(cells: Seq<Particle>, w: int, x: int, y: int) -> Particle {
    cells[y * w + x]
}

/// What the new grid holds at `(nx, ny)` once the old cells before `(px, py)`
/// in row-major order have been copied over.
pub open spec fn copied_so_far(old: ModelView, ox: int, oy: int, px: int, py: int, nx: int, ny: int) -> Particle {
    let sx = nx - ox;
    let sy = ny - oy;
    if old.in_bounds(sx, sy) && (sy < py || (sy == py && sx < px)) && old.cell(sx, sy).material
        != Material::Air {
        old.cell(sx, sy)
    } else {
        air()
    }
}

/// The cells `i` and `j` exchanged.
pub open spec fn swapped(s: Seq<Particle>, i: int, j: int) -> Seq<Particle> {
    s.update(i, s[j]).update(j, s[i])
}

impl View for Model {
    type V = ModelView;

    closed spec fn view(&self) -> ModelView {
        ModelView {
            state: self.state,
            width: self.width as nat,
            height: self.height as nat,
            cells: self.particles@,
        }
    }
}

/// A cell in the grid has an index in `0 .. width * height`.
pub proof fn lemma_index_in_range(w: int, h: int, x: int, y: int)
    requires
        0 <= x < w,
        0 <= y < h,
    ensures
        0 <= y * w + x < w * h,
        0 <= y * w <= w * h - w,
{
    assert(0 <= y * w) by (nonlinear_arith)
        requires
            0 <= y,
            0 <= w,
    ;
    assert(y * w <= (h - 1) * w) by (nonlinear_arith)
        requires
            y <= h - 1,
            0 <= w,
    ;
    assert((h - 1) * w == h * w - w) by (nonlinear_arith);
    assert(w * h == h * w) by (nonlinear_arith);
}

/// Two cells of a row-major grid with the same index are the same cell.
pub proof fn lemma_index_injective(w: int, x1: int, y1: int, x2: int, y2: int)
    requires
        0 <= x1 < w,
        0 <= x2 < w,
        0 <= y1,
        0 <= y2,
        y1 * w + x1 == y2 * w + x2,
    ensures
        x1 == x2,
        y1 == y2,
{
    if y1 < y2 {
        assert(y1 * w + w <= y2 * w) by (nonlinear_arith)
            requires
                y1 < y2,
                0 <= w,
        ;
    } else if y2 < y1 {
        assert(y2 * w + w <= y1 * w) by (nonlinear_arith)
            requires
                y2 < y1,
                0 <= w,
        ;
    }
}

/// Every index of the grid is the index of one cell: column `i % w`, row `i / w`.
pub proof fn lemma_index_decompose(w: int, h: int, i: int)
    requires
        0 <= w,
        0 <= h,
        0 <= i < w * h,
    ensures
        w > 0,
        0 <= i % w < w,
        0 <= i / w < h,
        (i / w) * w + i % w == i,
{
    if w == 0 {
        assert(w * h == 0) by (nonlinear_arith)
            requires
                w == 0,
        ;
    }
    assert(w > 0);
    vstd::arithmetic::div_mod::lemma_fundamental_div_mod(i, w);
    assert((i / w) * w == w * (i / w)) by (nonlinear_arith);
    assert(i / w < h) by (nonlinear_arith)
        requires
            w > 0,
            0 <= i < w * h,
            (i / w) * w + i % w == i,
            0 <= i % w,
    ;
    assert(0 <= i / w) by (nonlinear_arith)
        requires
            w > 0,
            0 <= i,
    ;
}

impl Model {
    pub open spec fn wf(&self) -> bool {
        self@.wf()
    }

    /// An empty world of the given size, running.
    pub fn new(width: usize, height: usize) -> (m: Self)
        requires
            width <= isize::MAX,
            height <= isize::MAX,
            width * height <= isize::MAX,
        ensures
            m.wf(),
            m@.state == State::Running,
            m@.width == width,
            m@.height == height,
            forall|i: int| 0 <= i < width * height ==> #[trigger] m@.cells[i] == air(),
    {
        let particles = vec![Particle::default(); width * height];
        Model { state: State::default(), width, height, particles }
    }

    /// Whether the simulation is running or done; the same as the public
    /// `state` field, for callers that reason about the view.
    pub fn state(&self) -> (s: State)
        ensures
            s == self@.state,
    {
        self.state
    }

    pub fn width(&self) -> (w: usize)
        ensures
            w == self@.width,
    {
        self.width
    }

    pub fn height(&self) -> (h: usize)
        ensures
            h == self@.height,
    {
        self.height
    }

    /// The index of the cell at `(x, y)`, or `None` outside the grid.
    pub fn get_index(&self, x: isize, y: isize) -> (r: Option<usize>)
        requires
            self.wf(),
        ensures
            r is Some <==> self@.in_bounds(x as int, y as int),
            r matches Some(i) ==> i == self@.index(x as int, y as int) && i < self@.cells.len(),
    {
        if x < 0 || y < 0 || x >= self.width as isize || y >= self.height as isize {
            None
        } else {
            proof {
                lemma_index_in_range(self.width as int, self.height as int, x as int, y as int);
            }
            let idx = y * self.width as isize + x;
            Some(idx as usize)
        }
    }

    /// Whether `(x, y)` lies in the grid.
    pub fn in_bounds(&self, x: isize, y: isize) -> (b: bool)
        requires
            self.wf(),
        ensures
            b == self@.in_bounds(x as int, y as int),
    {
        x >= 0 && x < self.width as isize && y >= 0 && y < self.height as isize
    }

    /// The particle at an index of the grid.
    pub fn particle_at(&self, index: usize) -> (p: Particle)
        requires
            index < self@.cells.len(),
        ensures
            p == self@.cells[index as int],
    {
        self.particles[index]
    }

    /// Whether the cell at `(x, y)` holds air.
    pub fn is_empty(&self, x: usize, y: usize) -> (b: bool)
        requires
            self.wf(),
            self@.in_bounds(x as int, y as int),
        ensures
            b == (self@.cell(x as int, y as int).material == Material::Air),
    {
        let idx = self.get_index(x as isize, y as isize).unwrap();
        self.particles[idx].is_empty()
    }

    /// Puts `particle` at `(x, y)`.
    pub fn set_particle(&mut self, x: usize, y: usize, particle: Particle)
        requires
            old(self).wf(),
            old(self)@.in_bounds(x as int, y as int),
        ensures
            final(self)@ == old(self)@.with_cells(
                old(self)@.cells.update(old(self)@.index(x as int, y as int), particle),
            ),
            final(self).wf(),
    {
        let idx = self.get_index(x as isize, y as isize).unwrap();
        self.particles.set(idx, particle);
    }

    /// Replaces the motion of the particle at `index`, keeping its material.
    pub fn set_motion(&mut self, index: usize, velocity: Velocity, move_buffer: MoveBuffer)
        requires
            index < old(self)@.cells.len(),
        ensures
            final(self)@ == old(self)@.with_cells(
                old(self)@.cells.update(
                    index as int,
                    Particle { material: old(self)@.cells[index as int].material, velocity, move_buffer },
                ),
            ),
            final(self)@.wf() == old(self)@.wf(),
            census(final(self)@.cells) == census(old(self)@.cells),
    {
        proof {
            lemma_census_same_material(
                self@.cells,
                index as int,
                Particle { material: self@.cells[index as int].material, velocity, move_buffer },
            );
        }
        let material = self.particles[index].material;
        self.particles.set(index, Particle { material, velocity, move_buffer });
    }

    /// Exchanges the contents of two cells.
    pub fn swap_particles(&mut self, x1: usize, y1: usize, x2: usize, y2: usize)
        requires
            old(self).wf(),
            old(self)@.in_bounds(x1 as int, y1 as int),
            old(self)@.in_bounds(x2 as int, y2 as int),
        ensures
            final(self)@ == old(self)@.with_cells(
                swapped(
                    old(self)@.cells,
                    old(self)@.index(x1 as int, y1 as int),
                    old(self)@.index(x2 as int, y2 as int),
                ),
            ),
            final(self).wf(),
    {
        let idx1 = self.get_index(x1 as isize, y1 as isize).unwrap();
        let idx2 = self.get_index(x2 as isize, y2 as isize).unwrap();
        let p1 = self.particles[idx1];
        let p2 = self.particles[idx2];
        self.particles.set(idx1, p2);
        self.particles.set(idx2, p1);
    }

    /// The material at `(x, y)`; outside the grid, wall.
    pub fn get_material(&self, x: isize, y: isize) -> (m: Material)
        requires
            self.wf(),
        ensures
            m == self@.material_at(x as int, y as int),
    {
        match self.get_index(x, y) {
            Some(idx) => self.particles[idx].material,
            None => Material::Wall,
        }
    }

    /// Whether the particle at `(x1, y1)` may enter `(x2, y2)`: the target
    /// is in the grid and is empty or less dense.
    pub fn can_move_to(&self, x1: isize, y1: isize, x2: isize, y2: isize) -> (b: bool)
        requires
            self.wf(),
        ensures
            b == self@.can_move(x1 as int, y1 as int, x2 as int, y2 as int),
    {
        if !self.in_bounds(x2, y2) {
            return false;
        }
        if self.is_empty(x2 as usize, y2 as usize) {
            return true;
        }
        let mat1 = match self.get_index(x1, y1) {
            Some(idx) => self.particles[idx].material,
            None => Material::Wall,
        };
        let mat2 = match self.get_index(x2, y2) {
            Some(idx) => self.particles[idx].material,
            None => Material::Wall,
        };
        mat1.density() > mat2.density()
    }

    /// Resizes the world to fit a terminal of `new_width` columns and
    /// `new_height` character rows (each `MARKER_HEIGHT` cells tall),
    /// keeping the old content centred. Nothing changes when the size is the
    /// same.
    pub fn resize(&mut self, new_width: usize, new_height: usize)
        requires
            old(self).wf(),
            new_width <= isize::MAX,
            new_height * MARKER_HEIGHT <= isize::MAX,
            new_width * (new_height * MARKER_HEIGHT) <= isize::MAX,
        ensures
            is_resized(old(self)@, final(self)@, new_width as int, new_height * MARKER_HEIGHT),
    {
        let new_height = new_height * MARKER_HEIGHT;
        if self.width == new_width && self.height == new_height {
            return;
        }
        let ghost v0 = self@;
        let ghost nw = new_width as int;
        let ghost nh = new_height as int;
        let ghost w = v0.width as int;
        let ghost h = v0.height as int;
        let mut new_particles = vec![Particle::default(); new_width * new_height];
        let offset_x: isize = if new_width >= self.width {
            ((new_width - self.width) / 2) as isize
        } else {
            -(((self.width - new_width) / 2) as isize)
        };
        let offset_y: isize = if new_height >= self.height {
            ((new_height - self.height) / 2) as isize
        } else {
            -(((self.height - new_height) / 2) as isize)
        };
        let ghost ox = offset_x as int;
        let ghost oy = offset_y as int;
        assert(ox == center_offset(nw, w));
        assert(oy == center_offset(nh, h));
        assert forall|nx: int, ny: int| 0 <= nx < nw && 0 <= ny < nh implies #[trigger] grid_cell(
            new_particles@,
            nw,
            nx,
            ny,
        ) == copied_so_far(v0, ox, oy, 0, 0, nx, ny) by {
            lemma_index_in_range(nw, nh, nx, ny);
        }
        let mut y: usize = 0;
        while y < self.height
            invariant
                self@ == v0,
                v0.wf(),
                w == v0.width,
                h == v0.height,
                y <= h,
                new_width == nw,
                new_height == nh,
                nw <= isize::MAX,
                nh <= isize::MAX,
                nw * nh <= isize::MAX,
                new_particles@.len() == nw * nh,
                offset_x == ox,
                offset_y == oy,
                ox == center_offset(nw, w),
                oy == center_offset(nh, h),
                forall|nx: int, ny: int|
                    #![trigger grid_cell(new_particles@, nw, nx, ny)]
                    0 <= nx < nw && 0 <= ny < nh ==> grid_cell(new_particles@, nw, nx, ny)
                        == copied_so_far(v0, ox, oy, 0, y as int, nx, ny),
            decreases h - y,
        {
            let mut x: usize = 0;
            while x < self.width
                invariant
                    self@ == v0,
                    v0.wf(),
                    w == v0.width,
                    h == v0.height,
                    y < h,
                    x <= w,
                    new_width == nw,
                    new_height == nh,
                    nw <= isize::MAX,
                    nh <= isize::MAX,
                    nw * nh <= isize::MAX,
                    new_particles@.len() == nw * nh,
                    offset_x == ox,
                    offset_y == oy,
                    ox == center_offset(nw, w),
                    oy == center_offset(nh, h),
                    forall|nx: int, ny: int|
                        #![trigger grid_cell(new_particles@, nw, nx, ny)]
                        0 <= nx < nw && 0 <= ny < nh ==> grid_cell(new_particles@, nw, nx, ny)
                            == copied_so_far(v0, ox, oy, x as int, y as int, nx, ny),
                decreases w - x,
            {
                proof {
                    lemma_index_in_range(w, h, x as int, y as int);
                }
                let old_idx = y * self.width + x;
                let ghost before = new_particles@;
                if self.particles[old_idx].material != Material::Air {
                    let new_x = x as isize + offset_x;
                    let new_y = y as isize + offset_y;
                    if new_x >= 0 && new_x < new_width as isize && new_y >= 0 && new_y < new_height as isize {
                        proof {
                            lemma_index_in_range(nw, nh, new_x as int, new_y as int);
                        }
                        let new_idx = (new_y as usize) * new_width + (new_x as usize);
                        let p = self.particles[old_idx];
                        new_particles.set(new_idx, p);
                        assert forall|nx: int, ny: int| 0 <= nx < nw && 0 <= ny < nh && !(nx == new_x
                            && ny == new_y) implies #[trigger] grid_cell(new_particles@, nw, nx, ny)
                            == grid_cell(before, nw, nx, ny) by {
                            lemma_index_in_range(nw, nh, nx, ny);
                            if ny * nw + nx == new_idx {
                                lemma_index_injective(nw, nx, ny, new_x as int, new_y as int);
                            }
                        }
                    }
                }
                x += 1;
            }
            y += 1;
        }
        proof {
            assert forall|nx: int, ny: int| 0 <= nx < nw && 0 <= ny < nh implies #[trigger] grid_cell(
                new_particles@,
                nw,
                nx,
                ny,
            ) == resized_cell(v0, nw, nh, nx, ny) by {
                assert(grid_cell(new_particles@, nw, nx, ny) == copied_so_far(v0, ox, oy, 0, h, nx, ny));
            }
        }
        self.width = new_width;
        self.height = new_height;
        self.particles = new_particles;
        proof {
            assert forall|x: int, y: int| self@.in_bounds(x, y) implies #[trigger] self@.cell(x, y)
                == resized_cell(v0, nw, nh, x, y) by {
                assert(self@.cell(x, y) == grid_cell(new_particles@, nw, x, y));
            }
        }
    }

    /// Handles a message: a resize resizes the world, `Quit` marks it done,
    /// and `Tick` leaves the grid as it is (advancing the particles is the
    /// physics integrator's work). No message is ever produced in reply.
    pub fn update(&mut self, msg: Message) -> (reply: Option<Message>)
        requires
            old(self).wf(),
            msg matches Message::Resize(w, h) ==> {
                &&& w <= isize::MAX
                &&& h * MARKER_HEIGHT <= isize::MAX
                &&& w * (h * MARKER_HEIGHT) <= isize::MAX
            },
        ensures
            reply is None,
            final(self).wf(),
            is_update(old(self)@, final(self)@, msg),
    {
        match msg {
            Message::Resize(x, y) => {
                self.resize(x, y);
                None
            },
            Message::Tick => None,
            Message::Quit => {
                self.state = State::Done;
                None
            },
        }
    }

    /// Places spawned particles in order, each only where its position lies
    /// in the grid and the cell is still empty.
    pub fn spawn(&mut self, pending: Vec<(usize, usize, Particle)>)
        requires
            old(self).wf(),
        ensures
            final(self).wf(),
            final(self)@ == old(self)@.with_cells(placed(old(self)@, pending@)),
    {
        let ghost v0 = self@;
        let mut i: usize = 0;
        while i < pending.len()
            invariant
                self.wf(),
                i <= pending@.len(),
                self@ == v0.with_cells(placed(v0, pending@.take(i as int))),
            decreases pending@.len() - i,
        {
            let (x, y, spawned) = pending[i];
            assert(pending@.take(i + 1).drop_last() =~= pending@.take(i as int));
            if x < self.width && y < self.height && self.is_empty(x, y) {
                self.set_particle(x, y, spawned);
            }
            i += 1;
        }
        assert(pending@.take(pending@.len() as int) =~= pending@);
    }

    /// The positions `(column, row)` of the cells that hold `material`, in
    /// row-major order.
    pub fn get_material_coords(&self, material: Material) -> (coords: Vec<(usize, usize)>)
        requires
            self.wf(),
        ensures
            coords@ == positions_of(self@.cells, self@.width, material, self@.cells.len() as int),
    {
        let mut coords: Vec<(usize, usize)> = Vec::new();
        let mut i: usize = 0;
        while i < self.particles.len()
            invariant
                self.wf(),
                i <= self@.cells.len(),
                coords@ == positions_of(self@.cells, self@.width, material, i as int),
            decreases self@.cells.len() - i,
        {
            if self.particles[i].material == material {
                proof {
                    lemma_index_decompose(self.width as int, self.height as int, i as int);
                }
                coords.push((i % self.width, i / self.width));
            }
            i += 1;
        }
        coords
    }

    /// The order in which a time step visits the cells: from the bottom row
    /// up, each row from left to right.
    pub fn sweep_order(&self) -> (order: Vec<(usize, usize)>)
        requires
            self.wf(),
        ensures
            order@.len() == self@.width * self@.height,
            forall|k: int|
                0 <= k < order@.len() ==> #[trigger] order@[k] == ((k % (self@.width as int)) as usize, (
                self@.height - 1 - k / (self@.width as int)) as usize),
    {
        let mut order: Vec<(usize, usize)> = Vec::new();
        let mut y = self.height;
        while y > 0
            invariant
                self.wf(),
                y <= self@.height,
                order@.len() == (self@.height - y) * self@.width,
                forall|k: int|
                    0 <= k < order@.len() ==> #[trigger] order@[k] == ((k % (self@.width as int)) as usize, (
                    self@.height - 1 - k / (self@.width as int)) as usize),
            decreases y,
        {
            y = y - 1;
            let mut x: usize = 0;
            while x < self.width
                invariant
                    self.wf(),
                    y < self@.height,
                    x <= self@.width,
                    order@.len() == (self@.height - 1 - y) * self@.width + x,
                    forall|k: int|
                        0 <= k < order@.len() ==> #[trigger] order@[k] == ((k % (self@.width as int)) as usize, (
                        self@.height - 1 - k / (self@.width as int)) as usize),
                decreases self@.width - x,
            {
                let ghost n = order@.len() as int;
                let ghost w = self@.width as int;
                let ghost r = self@.height - 1 - y;
                proof {
                    assert(n == r * w + x);
                    assert(n % w == x && n / w == r) by (nonlinear_arith)
                        requires
                            n == r * w + x,
                            0 <= x < w,
                            0 <= r,
                    {
                        vstd::arithmetic::div_mod::lemma_fundamental_div_mod_converse(n, w, r, x as int);
                    }
                }
                order.push((x, y));
                x += 1;
            }
            proof {
                assert((self@.height - 1 - y) * self@.width + self@.width == (self@.height - y) * self@.width)
                    by (nonlinear_arith);
            }
        }
        assert(self@.height * self@.width == self@.width * self@.height) by (nonlinear_arith);
        order
    }

    /// The cell nearest to `(x, y)` in the grid.
    pub fn clamp_to_grid(&self, x: usize, y: usize) -> (pos: (usize, usize))
        requires
            self@.width >= 1,
            self@.height >= 1,
        ensures
            pos.0 == (if x < self@.width { x as int } else { self@.width - 1 }),
            pos.1 == (if y < self@.height { y as int } else { self@.height - 1 }),
    {
        let cx = if x < self.width { x } else { self.width - 1 };
        let cy = if y < self.height { y } else { self.height - 1 };
        (cx, cy)
    }
}

/// Growing the world and then shrinking it back to its first size
/// restores it: every particle is back where it was, unchanged, and every
/// cell holds its old material (air, possibly with its motion reset).
pub proof fn lemma_grow_and_shrink_back(old: ModelView, mid: ModelView, new: ModelView, grown_width: int, grown_height: int)
    requires
        old.wf(),
        grown_width >= old.width,
        grown_height >= old.height,
        !(grown_width == old.width && grown_height == old.height),
        is_resized(old, mid, grown_width, grown_height),
        is_resized(mid, new, old.width as int, old.height as int),
    ensures
        new.width == old.width,
        new.height == old.height,
        new.state == old.state,
        forall|x: int, y: int|
            #![trigger new.cell(x, y)]
            old.in_bounds(x, y) ==> new.cell(x, y).material == old.cell(x, y).material && (old.cell(x, y).material
                != Material::Air ==> new.cell(x, y) == old.cell(x, y)),
{
    let ox = center_offset(grown_width, old.width as int);
    let oy = center_offset(grown_height, old.height as int);
    assert(center_offset(old.width as int, grown_width) == -ox);
    assert(center_offset(old.height as int, grown_height) == -oy);
    assert forall|x: int, y: int| old.in_bounds(x, y) implies #[trigger] new.cell(x, y).material == old.cell(x, y).material
        && (old.cell(x, y).material != Material::Air ==> new.cell(x, y) == old.cell(x, y)) by {
        assert(new.cell(x, y) == resized_cell(mid, old.width as int, old.height as int, x, y));
        assert(mid.in_bounds(x + ox, y + oy));
        assert(mid.cell(x + ox, y + oy) == resized_cell(old, grown_width, grown_height, x + ox, y + oy));
    }
}

/// The density rule, in terms of the cells themselves: nothing enters a
/// cell outside the grid; anything enters an empty cell; a particle enters
/// an occupied cell exactly when its density is strictly greater, whatever
/// kind of material it is; and from outside the grid (a wall) every cell
/// but a wall can be entered.
pub proof fn lemma_density_rule(v: ModelView, x1: int, y1: int, x2: int, y2: int)
    ensures
        !v.in_bounds(x2, y2) ==> !v.can_move(x1, y1, x2, y2),
        v.in_bounds(x2, y2) && v.cell(x2, y2).material == Material::Air ==> v.can_move(x1, y1, x2, y2),
        v.in_bounds(x1, y1) && v.in_bounds(x2, y2) && v.cell(x2, y2).material != Material::Air ==> (v.can_move(
            x1,
            y1,
            x2,
            y2,
        ) <==> density_of(v.cell(x1, y1).material) > density_of(v.cell(x2, y2).material)),
        !v.in_bounds(x1, y1) && v.in_bounds(x2, y2) ==> (v.can_move(x1, y1, x2, y2) <==> v.cell(x2, y2).material
            != Material::Wall),
{
}

/// The number of entries spawning leaves in the grid is the number of cells.
pub proof fn lemma_spawn_len(v: ModelView, pending: Seq<(usize, usize, Particle)>)
    requires
        v.wf(),
    ensures
        placed(v, pending).len() == v.cells.len(),
    decreases pending.len(),
{
    if pending.len() > 0 {
        lemma_spawn_len(v, pending.drop_last());
        let (x, y, p) = pending.last();
        if v.in_bounds(x as int, y as int) {
            lemma_index_in_range(v.width as int, v.height as int, x as int, y as int);
        }
    }
}

/// Spawning leaves every cell that no pending particle aims at as it was.
pub proof fn lemma_spawn_untouched(v: ModelView, pending: Seq<(usize, usize, Particle)>, x: int, y: int)
    requires
        v.wf(),
        v.in_bounds(x, y),
        forall|j: int| 0 <= j < pending.len() ==> !(#[trigger] pending[j].0 == x && pending[j].1 == y),
    ensures
        placed(v, pending)[v.index(x, y)] == v.cell(x, y),
    decreases pending.len(),
{
    if pending.len() > 0 {
        let pre = pending.drop_last();
        assert forall|j: int| 0 <= j < pre.len() implies !(#[trigger] pre[j].0 == x && pre[j].1 == y) by {
            assert(pre[j] == pending[j]);
        }
        lemma_spawn_untouched(v, pre, x, y);
        lemma_spawn_len(v, pre);
        let (px, py, p) = pending.last();
        assert(!(px == x && py == y)) by {
            assert(pending[pending.len() - 1] == pending.last());
        }
        lemma_index_in_range(v.width as int, v.height as int, x, y);
        if v.in_bounds(px as int, py as int) {
            lemma_index_in_range(v.width as int, v.height as int, px as int, py as int);
            if v.index(px as int, py as int) == v.index(x, y) {
                lemma_index_injective(v.width as int, px as int, py as int, x, y);
            }
        }
    }
}

/// Spawning puts a pending particle into its cell when the cell is in the
/// grid and holds air, no earlier pending particle aims at it, and no later
/// one can take it from it (it is not air itself, or no other pending
/// particle aims at that cell): the cell then holds exactly that particle,
/// whatever its material.
pub proof fn lemma_spawn_places(v: ModelView, pending: Seq<(usize, usize, Particle)>, k: int)
    requires
        v.wf(),
        0 <= k < pending.len(),
        v.in_bounds(pending[k].0 as int, pending[k].1 as int),
        v.cell(pending[k].0 as int, pending[k].1 as int).material == Material::Air,
        forall|j: int|
            0 <= j < pending.len() && j != k && #[trigger] pending[j].0 == pending[k].0 && pending[j].1
                == pending[k].1 ==> j > k && pending[k].2.material != Material::Air,
    ensures
        placed(v, pending)[v.index(pending[k].0 as int, pending[k].1 as int)] == pending[k].2,
    decreases pending.len(),
{
    let (x, y) = (pending[k].0 as int, pending[k].1 as int);
    let pre = pending.drop_last();
    let last = pending.len() - 1;
    lemma_spawn_len(v, pre);
    lemma_index_in_range(v.width as int, v.height as int, x, y);
    if k == last {
        assert forall|j: int| 0 <= j < pre.len() implies !(#[trigger] pre[j].0 == x && pre[j].1 == y) by {
            assert(pre[j] == pending[j]);
        }
        lemma_spawn_untouched(v, pre, x, y);
        assert(pending.last() == pending[k]);
    } else {
        assert(pre[k] == pending[k]);
        assert forall|j: int|
            0 <= j < pre.len() && j != k && #[trigger] pre[j].0 == pre[k].0 && pre[j].1 == pre[k].1 implies j > k
            && pre[k].2.material != Material::Air by {
            assert(pre[j] == pending[j]);
        }
        lemma_spawn_places(v, pre, k);
        let (px, py, p) = pending.last();
        assert(pending.last() == pending[last]);
        if v.in_bounds(px as int, py as int) {
            lemma_index_in_range(v.width as int, v.height as int, px as int, py as int);
            if v.index(px as int, py as int) == v.index(x, y) {
                lemma_index_injective(v.width as int, px as int, py as int, x, y);
            }
        }
    }
}

/// Every cell of the grid that holds `material` is among the reported
/// positions.
pub proof fn lemma_coords_complete(v: ModelView, material: Material, x: int, y: int)
    requires
        v.wf(),
        v.in_bounds(x, y),
        v.cell(x, y).material == material,
    ensures
        positions_of(v.cells, v.width, material, v.cells.len() as int).contains((x as usize, y as usize)),
{
    let w = v.width as int;
    let i = y * w + x;
    lemma_index_in_range(w, v.height as int, x, y);
    vstd::arithmetic::div_mod::lemma_fundamental_div_mod_converse(i, w, y, x);
    lemma_coords_prefix(v, material, i, v.cells.len() as int);
}

/// A cell among the first `n` that holds `material` is reported by
/// `positions_of` over them.
proof fn lemma_coords_prefix(v: ModelView, material: Material, i: int, n: int)
    requires
        v.wf(),
        0 <= i < n <= v.cells.len(),
        v.cells[i].material == material,
    ensures
        positions_of(v.cells, v.width, material, n).contains(((i % (v.width as int)) as usize, (i / (v.width as int)) as usize)),
    decreases n,
{
    let e = ((i % (v.width as int)) as usize, (i / (v.width as int)) as usize);
    let prev = positions_of(v.cells, v.width, material, n - 1);
    if i == n - 1 {
        assert(positions_of(v.cells, v.width, material, n) == prev.push(e));
        assert(prev.push(e)[prev.len() as int] == e);
    } else {
        lemma_coords_prefix(v, material, i, n - 1);
        let k = choose|k: int| 0 <= k < prev.len() && prev[k] == e;
        if v.cells[n - 1].material == material {
            let next = prev.push(((((n - 1) % (v.width as int)) as usize, ((n - 1) / (v.width as int)) as usize)));
            assert(next[k] == e);
        }
    }
}

/// As many positions are reported for a material as there are cells that
/// hold it: each such cell once.
pub proof fn lemma_coords_count(v: ModelView, material: Material)
    requires
        v.wf(),
    ensures
        positions_of(v.cells, v.width, material, v.cells.len() as int).len() == census(v.cells).count(material),
{
    lemma_coords_count_prefix(v, material, v.cells.len() as int);
    assert(v.cells.take(v.cells.len() as int) =~= v.cells);
}

proof fn lemma_coords_count_prefix(v: ModelView, material: Material, n: int)
    requires
        0 <= n <= v.cells.len(),
    ensures
        positions_of(v.cells, v.width, material, n).len() == census(v.cells.take(n)).count(material),
    decreases n,
{
    broadcast use vstd::seq_lib::to_multiset_build, vstd::seq_lib::to_multiset_contains, vstd::multiset::group_multiset_axioms;

    if n == 0 {
        assert(materials(v.cells.take(0)) =~= Seq::<Material>::empty());
        assert(!materials(v.cells.take(0)).contains(material));
    } else {
        lemma_coords_count_prefix(v, material, n - 1);
        assert(materials(v.cells.take(n)) =~= materials(v.cells.take(n - 1)).push(v.cells[n - 1].material));
    }
}

/// Once the world is done it stays done, whatever message comes next; and
/// `Quit` always makes it done.
pub proof fn lemma_done_is_final(old: ModelView, new: ModelView, msg: Message)
    requires
        is_update(old, new, msg),
    ensures
        old.state == State::Done ==> new.state == State::Done,
        msg == Message::Quit ==> new.state == State::Done,
        msg != Message::Quit ==> new.state == old.state,
{
}

/// Growing the world in both directions loses no particle: each one is
/// found again, unchanged, shifted by the centring offsets.
pub proof fn lemma_grow_keeps_particles(old: ModelView, new: ModelView, new_width: int, new_height: int, x: int, y: int)
    requires
        old.wf(),
        is_resized(old, new, new_width, new_height),
        new_width >= old.width,
        new_height >= old.height,
        old.in_bounds(x, y),
        old.cell(x, y).material != Material::Air,
    ensures
        new.in_bounds(x + center_offset(new_width, old.width as int), y + center_offset(new_height, old.height as int)),
        new.cell(x + center_offset(new_width, old.width as int), y + center_offset(new_height, old.height as int))
            == old.cell(x, y),
{
    let nx = x + center_offset(new_width, old.width as int);
    let ny = y + center_offset(new_height, old.height as int);
    if !(old.width == new_width && old.height == new_height) {
        assert(new.in_bounds(nx, ny));
        assert(new.cell(nx, ny) == resized_cell(old, new_width, new_height, nx, ny));
    }
}

/// Spawning never overwrites a particle: a cell that holds anything but
/// air keeps its content, whatever is spawned.
pub proof fn lemma_spawn_keeps_occupied(v: ModelView, pending: Seq<(usize, usize, Particle)>, x: int, y: int)
    requires
        v.wf(),
        v.in_bounds(x, y),
        v.cell(x, y).material != Material::Air,
    ensures
        placed(v, pending).len() == v.cells.len(),
        placed(v, pending)[v.index(x, y)] == v.cell(x, y),
    decreases pending.len(),
{
    if pending.len() > 0 {
        lemma_spawn_keeps_occupied(v, pending.drop_last(), x, y);
        let (px, py, p) = pending.last();
        if v.in_bounds(px as int, py as int) {
            lemma_index_in_range(v.width as int, v.height as int, px as int, py as int);
            lemma_index_in_range(v.width as int, v.height as int, x, y);
            if v.index(px as int, py as int) == v.index(x, y) {
                lemma_index_injective(v.width as int, px as int, py as int, x, y);
            }
        }
    }
}

/// Every position reported for a material is a cell of the grid that holds
/// that material.
pub proof fn lemma_coords_hold_material(v: ModelView, material: Material, n: int, k: int)
    requires
        v.wf(),
        0 <= n <= v.cells.len(),
        0 <= k < positions_of(v.cells, v.width, material, n).len(),
    ensures
        ({
            let (x, y) = positions_of(v.cells, v.width, material, n)[k];
            v.in_bounds(x as int, y as int) && v.cell(x as int, y as int).material == material
        }),
    decreases n,
{
    if n > 0 {
        let prev = positions_of(v.cells, v.width, material, n - 1);
        if k < prev.len() {
            lemma_coords_hold_material(v, material, n - 1, k);
        } else {
            lemma_index_decompose(v.width as int, v.height as int, n - 1);
        }
    }
}

} // verus!
