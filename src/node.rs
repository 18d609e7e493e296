//! Decisions of a node: where a write goes, how a read is made
//! linearizable, when a local read may go ahead, and how the outcome of a
//! call to a peer is reported.
use vstd::prelude::*;

use crate::operator_read::ReadConsistency;
use crate::protocol::{LinearizerData, LogId, ReadPolicy};
use crate::NodeId;

verus! {

/// Whose view a read is linearized against.
#[derive(Clone, Copy, Debug, PartialEq, Eq, Structural)]
pub enum ReadSource {
    /// This node's own Raft instance.
    Local,
    /// The leader, asked through the peer connection when this node follows.
    Leader,
}

/// The leader as this node sees it.
#[derive(Clone, Copy, Debug, PartialEq, Eq, Structural)]
pub enum LeaderResponse {
    NodeIsLeader,
    NodeIsFollower(NodeId),
    NoLeader,
}

/// How a read gets its linearizer.
#[derive(Clone, Copy, Debug, PartialEq, Eq, Structural)]
pub enum ReadPlan {
    /// Read the local state as it is.
    Stale,
    /// Get a linearizer from the local Raft instance.
    LocalLinearizer(ReadPolicy),
    /// Send a linearizer request to the leader and wait on its token.
    AskLeader { leader: NodeId, policy: ReadPolicy },
    /// No leader is known: fail at once.
    NoLeader,
}

pub open spec fn leader_of(self_id: NodeId, current_leader: Option<NodeId>) -> LeaderResponse {
    match current_leader {
        None => LeaderResponse::NoLeader,
        Some(l) => if l == self_id {
            LeaderResponse::NodeIsLeader
        } else {
            LeaderResponse::NodeIsFollower(l)
        },
    }
}

/// Where a write goes: proposed here, forwarded to the leader, or refused.
pub fn leader_response(self_id: NodeId, current_leader: Option<NodeId>) -> (r: LeaderResponse)
    ensures
        r == leader_of(self_id, current_leader),
{
    match current_leader {
        None => LeaderResponse::NoLeader,
        Some(l) => if l == self_id {
            LeaderResponse::NodeIsLeader
        } else {
            LeaderResponse::NodeIsFollower(l)
        },
    }
}

/// The policy a consistency level asks of the linearizer; none for a
/// stale read.
pub open spec fn policy_of(c: ReadConsistency) -> Option<ReadPolicy> {
    match c {
        ReadConsistency::AsIs => None,
        ReadConsistency::LeaseRead => Some(ReadPolicy::LeaseRead),
        ReadConsistency::Linearizable => Some(ReadPolicy::ReadIndex),
    }
}

pub open spec fn read_plan(
    self_id: NodeId,
    current_leader: Option<NodeId>,
    source: ReadSource,
    consistency: ReadConsistency,
) -> ReadPlan {
    match policy_of(consistency) {
        None => ReadPlan::Stale,
        Some(policy) => match source {
            ReadSource::Local => ReadPlan::LocalLinearizer(policy),
            ReadSource::Leader => match leader_of(self_id, current_leader) {
                LeaderResponse::NodeIsLeader => ReadPlan::LocalLinearizer(policy),
                LeaderResponse::NodeIsFollower(leader) => ReadPlan::AskLeader { leader, policy },
                LeaderResponse::NoLeader => ReadPlan::NoLeader,
            },
        },
    }
}

pub fn read_policy(consistency: ReadConsistency) -> (r: Option<ReadPolicy>)
    ensures
        r == policy_of(consistency),
{
    match consistency {
        ReadConsistency::AsIs => None,
        ReadConsistency::LeaseRead => Some(ReadPolicy::LeaseRead),
        ReadConsistency::Linearizable => Some(ReadPolicy::ReadIndex),
    }
}

/// How a read from `source` at `consistency` gets its linearizer.
pub fn plan_read(
    self_id: NodeId,
    current_leader: Option<NodeId>,
    source: ReadSource,
    consistency: ReadConsistency,
) -> (r: ReadPlan)
    ensures
        r == read_plan(self_id, current_leader, source, consistency),
{
    match read_policy(consistency) {
        None => ReadPlan::Stale,
        Some(policy) => match source {
            ReadSource::Local => ReadPlan::LocalLinearizer(policy),
            ReadSource::Leader => match leader_response(self_id, current_leader) {
                LeaderResponse::NodeIsLeader => ReadPlan::LocalLinearizer(policy),
                LeaderResponse::NodeIsFollower(leader) => ReadPlan::AskLeader { leader, policy },
                LeaderResponse::NoLeader => ReadPlan::NoLeader,
            },
        },
    }
}

/// The token the leader hands out for a linearizer request.
pub fn linearizer_token(leader_id: NodeId, read_log_id: LogId, applied: Option<LogId>) -> (r:
    LinearizerData)
    ensures
        r == (LinearizerData { node_id: leader_id, read_log_id, applied }),
{
    LinearizerData { node_id: leader_id, read_log_id, applied }
}

pub open spec fn caught_up(applied: Option<LogId>, token: LinearizerData) -> bool {
    match applied {
        Some(a) => a.index >= token.read_log_id.index,
        None => false,
    }
}

/// A local read under `token` may go ahead: this node has applied the log
/// up to the token's read position.
pub fn linearizer_ready(applied: Option<LogId>, token: &LinearizerData) -> (r: bool)
    ensures
        r == caught_up(applied, *token),
{
    match applied {
        Some(a) => a.index >= token.read_log_id.index,
        None => false,
    }
}

/// Why a call to a peer failed.
#[derive(Clone, Debug, PartialEq, Eq)]
pub enum RpcFailure<E> {
    /// The connection could not carry it; the caller may retry.
    Unreachable(String),
    /// The peer answered with an error of its own.
    Remote { target: NodeId, error: E },
}

/// The outcome of a call to `target`: a transport failure is
/// `Unreachable`, an error the peer answered with is `Remote` with the
/// peer's id, and a success is passed on.
pub fn rpc_outcome<T, E>(target: NodeId, reply: Result<Result<T, E>, String>) -> (r: Result<T, RpcFailure<E>>)
    ensures
        match reply {
            Err(msg) => r == Err::<T, RpcFailure<E>>(RpcFailure::Unreachable(msg)),
            Ok(Err(e)) => r == Err::<T, RpcFailure<E>>(RpcFailure::Remote { target, error: e }),
            Ok(Ok(v)) => r == Ok::<T, RpcFailure<E>>(v),
        },
{
    match reply {
        Err(msg) => Err(RpcFailure::Unreachable(msg)),
        Ok(Err(e)) => Err(RpcFailure::Remote { target, error: e }),
        Ok(Ok(v)) => Ok(v),
    }
}

} // verus!
