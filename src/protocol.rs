//! What nodes send each other, beside the framing of `frame`.
use vstd::prelude::*;

use crate::kv::Request;
use crate::NodeId;

verus! {

/// Position of an entry in the replicated log: the term and node of the
/// leader that wrote it, and its index.
#[derive(Clone, Copy, Debug, PartialEq, Eq, Structural)]
pub struct LogId {
    pub term: u64,
    pub node_id: NodeId,
    pub index: u64,
}

/// How a leader makes sure that it still leads before serving a read.
#[derive(Clone, Copy, Debug, PartialEq, Eq, Structural)]
pub enum ReadPolicy {
    /// Trust the leader lease: no round trip, weaker under clock drift.
    LeaseRead,
    /// Confirm leadership with a quorum heartbeat: the strongest.
    ReadIndex,
}

/// The tagged payload of a request frame between peers.
pub enum RequestType {
    AppendEntriesRequest(Vec<u8>),
    InstallSnapshotRequest(Vec<u8>),
    VoteRequest(Vec<u8>),
    AppRequest(Request),
    Linearizer { read_policy: ReadPolicy },
}

/// A read token handed out by the leader: a read on any node is
/// linearizable once that node has applied up to `read_log_id`.
#[derive(Clone, Copy, Debug, PartialEq, Eq, Structural)]
pub struct LinearizerData {
    pub node_id: NodeId,
    pub read_log_id: LogId,
    pub applied: Option<LogId>,
}

} // verus!
