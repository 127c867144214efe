//! Operations of ICS23 commitment proofs.

pub mod length_op;
