//! Diffusion-limited aggregation: a grid of cells on which randomly walking
//! particles stick to a growing cluster.

pub mod grid;
pub mod source;
pub mod spiral;
