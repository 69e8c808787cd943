//! Simulated per-instrument market prices with verified rolling analytics.
//!
//! Prices are fixed-point integers in ten-thousandths of a currency unit;
//! rates and relative changes are integers in parts per million.
pub mod fixed;
pub mod analysis;
pub mod window;
pub mod price_generator;
pub mod simulation;
