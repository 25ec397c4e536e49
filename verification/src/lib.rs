//! Kinematic simulation of articulated point bodies.
//!
//! Each body carries a truncated Taylor series of its motion: a stack of
//! spatial and angular derivative vectors (position through pop), in one to
//! four spatial dimensions. Every derivative can be range-constrained per
//! axis, and bodies are connected into an undirected graph of joints and
//! links that batches constraint and update operations across the whole
//! structure.

pub mod body;
pub mod constraint;
pub mod joint;
pub mod link;
pub mod linkage;
pub mod particle;
