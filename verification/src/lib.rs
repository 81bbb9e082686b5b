//! A two-species predator-prey ecosystem on a fixed-size 2D grid.
//!
//! The grid evolves in discrete generations under configurable survival,
//! reproduction and aging rules. Each tick reads the current grid, computes a
//! brand-new next grid cell by cell, and then swaps the buffers. Randomness is
//! drawn from an injectable, seedable generator so that runs are reproducible.

pub mod cell;
pub mod config;
pub mod game;
pub mod rng;
pub mod rules;
