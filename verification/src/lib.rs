//! A fixed-block-size memory pool: many requests no larger than one block are
//! served from a single buffer of `block_size * num_blocks` bytes, and every
//! other request is handed on to a general-purpose allocator.
//!
//! The pool deals in byte offsets into its buffer, never in the bytes
//! themselves: it decides which block a request gets and takes blocks back.
//! Holding the buffer, and calling the general-purpose allocator, is left to
//! whoever owns a [`PoolAllocator`].

pub mod allocator;
pub mod laws;
pub mod model;
pub mod placement;

pub use allocator::{ConstructionError, PoolAllocator};
pub use model::{PoolModel, Request};
pub use placement::{fits, Allocation, AllocationFailure, Path, Placement};
