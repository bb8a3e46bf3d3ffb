//! Lowering of a circuit into per-node contributions and the relaxation engine.

pub mod compiler;
pub mod op;
