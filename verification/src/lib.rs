//! Discrete core of a spatio-temporal VCSEL simulator: the integer and
//! index logic of the mode tables, the phase-coupling tensors of the
//! carrier equations, grid shifting and correlation index plans.

pub mod array;
pub mod correlation;
pub mod feedback;
pub mod grid;
pub mod input;
pub mod kronecker;
pub mod modes;
pub mod phase;
pub mod select;
