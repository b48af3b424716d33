//! State-transition and proof-witness core of a layer-2 rollup.
//!
//! The crate maintains a model of the global account tree, applies the
//! "erase" operation (revoking a nonce value while paying a fee) under
//! strict validation rules, serializes the operation into a fixed-width
//! public-data block, and derives the per-operation witness consumed by
//! the proving circuit.

pub mod helpers;
pub mod operations;
pub mod order;
pub mod params;
pub mod primitives;
pub mod state;
pub mod tree;
pub mod tx;
pub mod utils;
pub mod witness;
