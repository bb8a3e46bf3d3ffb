//! Circuit description: numbers, components, circuits and per-node roles.

pub mod circuit;
pub mod component;
pub mod role;
pub mod scalar;
