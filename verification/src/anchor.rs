//! Where spawners sit on the grid.
use vstd::prelude::*;

verus! {

/// A spawner position that follows the width of the grid by whole cells.
#[derive(Clone, Copy, Debug, PartialEq, Eq, Structural)]
pub enum GridAnchor {
    /// Fixed cell coordinates.
    Fixed(usize, usize),
    /// A fixed distance from the right edge, and a fixed row.
    TopRight(usize, usize),
    /// The middle column, and a fixed row.
    CenterX(usize),
}

impl GridAnchor {
    /// The position this anchor gives on a grid `width` cells wide, before
    /// it is clamped into the grid.
    pub fn target(&self, width: usize) -> (pos: (usize, usize))
        ensures
            pos == match *self {
                GridAnchor::Fixed(x, y) => (x, y),
                GridAnchor::TopRight(margin_right, y) => (
                    if margin_right <= width { (width - margin_right) as usize } else { 0 },
                    y,
                ),
                GridAnchor::CenterX(y) => (width / 2, y),
            },
    {
        match *self {
            GridAnchor::Fixed(x, y) => (x, y),
            GridAnchor::TopRight(margin_right, y) => {
                let x = if margin_right <= width { width - margin_right } else { 0 };
                (x, y)
            },
            GridAnchor::CenterX(y) => (width / 2, y),
        }
    }
}

} // verus!
