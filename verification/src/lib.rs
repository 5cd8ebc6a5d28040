//! Signal-generation core of a momentum trading engine.
//!
//! All prices, quantities and percentages are fixed-point integers scaled by
//! `fixed::SCALE` (one unit is `SCALE` micro-units), so every rule of the
//! engine is an exact rational comparison.

pub mod config;
pub mod fixed;
pub mod market;
pub mod strategy;
pub mod trading;
pub mod types;
