//! An embeddable replicated key-value store: the deterministic parts of its
//! write and read paths, stated and proved.
use vstd::prelude::*;

pub mod assoc;
pub mod frame;
pub mod distkv;
pub mod kv;
pub mod log_store;
pub mod node;
pub mod operator_read;
pub mod operator_set;
pub mod peer;
pub mod protocol;
pub mod replica;
pub mod snapshot;
pub mod state_machine;

pub use crate::distkv::DistKV;
pub use crate::kv::SetResponse;
pub use crate::operator_set::SetError;

verus! {

/// Identity of a node of the cluster.
pub type NodeId = u64;

} // verus!
