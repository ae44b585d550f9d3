//! Primitives of the block classes, one module per arity.

pub mod block1;
pub mod block2;
pub mod block3;
