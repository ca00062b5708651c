//! The runtime's sharding module: its configuration trait.
//!
//! The module keeps two storage values, the chain's shard number (absent until
//! it is set, which may happen in block one) and the total shard count (set in
//! the genesis configuration); the runtime framework that stores them lives
//! outside this library.

use vstd::prelude::*;

verus! {

/// The configuration trait of the sharding module. It adds nothing to the
/// system module's configuration.
pub trait Trait {
}

} // verus!
