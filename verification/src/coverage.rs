//! The coverage bitmap: which pixels of the map a traveller has visited,
//! kept as a sparse collection of fixed-size blocks.

pub mod bitmap;
pub mod block;
pub mod grid;
