//! Elevation lookup over SRTM HGT tiles.
//!
//! A coordinate is mapped to the 1-degree cell that contains it, the cell to a
//! relative tile path; the tile's raw grid is decoded and sampled, and decoded
//! tiles are held in a bounded cache that collapses concurrent loads of the
//! same cell.

pub mod cache;
pub mod hgt;
pub mod path;
pub mod service;
pub mod tileset;
pub mod types;
pub mod uri;
