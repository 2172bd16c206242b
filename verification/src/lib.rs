//! A minimal rank-1 constraint system (R1CS) framework: circuits are described
//! as typed variable allocations plus linear-combination constraints
//! (A·x)·(B·x) = (C·x) over the BLS12-381 scalar field, with a setup mode that
//! carries no values and a witness mode that carries a concrete assignment,
//! both laying down bit-identical constraint topology.

pub mod scalar;
pub mod lc;
pub mod system;
pub mod circuits;
