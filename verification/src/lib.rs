//! A falling-sand world: a grid of cells, each holding a particle of some
//! material, with the rules by which particles move, sink, collide, burn and
//! are extinguished.
pub mod material;
pub mod particle;
pub mod model;
pub mod census;
pub mod reaction;
pub mod motion;
pub mod anchor;
