//! Neutron time-of-flight energy calculator.
//!
//! The library turns a flight-path length and an elapsed time, each given as
//! a magnitude string plus a unit token, into the classical kinetic energy
//! E = m·L² / (2·T²) of a neutron, rendered in a caller-chosen energy unit.
//! Magnitudes are carried as exact decimal values (an integer mantissa of at
//! most nine significant digits and a power-of-ten exponent), so every unit
//! conversion and the energy formula itself are exact integer arithmetic.
pub mod decimal;
pub mod energy;
pub mod errors;
pub mod laws;
pub mod math;
pub mod pipeline;
pub mod render;
pub mod text;
pub mod units;
