//! Kinetics of diffusing, decaying and mutually annihilating excitons on a plane.
//!
//! Every real quantity is carried as the bit pattern of an IEEE-754 binary64
//! number. The library compares, validates and encodes such patterns exactly;
//! the arithmetic that produces them belongs to the caller.

pub mod binary64;
pub mod cli_schema;
pub mod contact;
pub mod coord2d;
pub mod excitation_source2d;
pub mod exciton;
pub mod population;
pub mod simulation;
pub mod sweep;
