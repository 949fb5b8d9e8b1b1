//! The core of a travel log: the metadata of a journey with its conversion
//! to and from the wire message that carries it, the bitmap of the pixels of
//! the map that a traveller has visited, and the reduction of such a bitmap
//! to what an estimate of the visited area is made of.

pub mod area;
pub mod coverage;
pub mod error;
pub mod journey_header;
pub mod protos;
pub mod time;
pub mod utils;
