//! Corotational linear elasticity for particle (SPH) simulations.
//!
//! The library models every physical scalar as a fixed-point integer
//! (see [`fx`]), which lets the solver's tensor algebra carry exact,
//! machine-checked contracts: bounded kernel supports, permutation-safe
//! rest state, pairwise antisymmetric internal forces, and a stress-free
//! rest configuration.

pub mod fx;
pub mod tensor;
pub mod kernel;
pub mod contacts;
pub mod solver;
pub mod laws;
