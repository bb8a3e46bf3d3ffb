//! DC operating point of resistor / current-source / diode networks by damped
//! relaxation, generic over the number type the caller computes with.

pub mod general;
pub mod simulation;
