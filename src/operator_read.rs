//! Reads: the request a caller configures, and its options.
use vstd::prelude::*;

use crate::kv::opt_bytes;
use crate::node::{caught_up, linearizer_ready, plan_read, read_plan, ReadPlan, ReadSource};
use crate::protocol::LinearizerData;
use crate::state_machine::{live_value, StateMachine};
use crate::NodeId;

pub use crate::operator_set::SetError;

verus! {

#[derive(Clone, Copy, Debug, PartialEq, Eq, Structural)]
pub enum ReadConsistency {
    /// No linearizer: the local state as it is.
    AsIs,
    /// Linearized by the leader lease.
    LeaseRead,
    /// Linearized by a quorum round trip.
    Linearizable,
}

/// A read that failed.
#[derive(Clone, Debug, PartialEq, Eq)]
pub enum KVReadError {
    Unknown(String),
}

/// Where a read stands once its linearizer, if any, is known.
#[derive(Clone, Debug, PartialEq, Eq)]
pub enum ReadStep {
    /// This node has not applied up to the token yet: wait for it.
    Wait,
    /// The value the read returns.
    Value(Option<Vec<u8>>),
}

/// A read of one key, with its options settled.
#[derive(Clone, Debug, PartialEq, Eq)]
pub struct ReadRequest {
    pub key: String,
    pub source: ReadSource,
    pub consistency: ReadConsistency,
}

/// A read being configured; options left unset take their defaults,
/// the leader as source and linearizable consistency.
#[derive(Clone, Debug, PartialEq, Eq)]
pub struct ReadRequestBuilder {
    pub key: String,
    pub source: Option<ReadSource>,
    pub consistency: Option<ReadConsistency>,
}

impl ReadRequestBuilder {
    pub fn new(key: String) -> (r: ReadRequestBuilder)
        ensures
            r.key == key,
            r.source is None,
            r.consistency is None,
    {
        ReadRequestBuilder { key, source: None, consistency: None }
    }

    pub fn local(self) -> (r: ReadRequestBuilder)
        ensures
            r == (ReadRequestBuilder { source: Some(ReadSource::Local), ..self }),
    {
        ReadRequestBuilder { source: Some(ReadSource::Local), ..self }
    }

    pub fn leader(self) -> (r: ReadRequestBuilder)
        ensures
            r == (ReadRequestBuilder { source: Some(ReadSource::Leader), ..self }),
    {
        ReadRequestBuilder { source: Some(ReadSource::Leader), ..self }
    }

    pub fn as_is(self) -> (r: ReadRequestBuilder)
        ensures
            r == (ReadRequestBuilder { consistency: Some(ReadConsistency::AsIs), ..self }),
    {
        ReadRequestBuilder { consistency: Some(ReadConsistency::AsIs), ..self }
    }

    pub fn leader_lease(self) -> (r: ReadRequestBuilder)
        ensures
            r == (ReadRequestBuilder { consistency: Some(ReadConsistency::LeaseRead), ..self }),
    {
        ReadRequestBuilder { consistency: Some(ReadConsistency::LeaseRead), ..self }
    }

    pub fn linearizable(self) -> (r: ReadRequestBuilder)
        ensures
            r == (ReadRequestBuilder { consistency: Some(ReadConsistency::Linearizable), ..self }),
    {
        ReadRequestBuilder { consistency: Some(ReadConsistency::Linearizable), ..self }
    }

    /// The request, with defaults for what was left unset.
    pub fn build(self) -> (r: ReadRequest)
        ensures
            r.key == self.key,
            r.source == match self.source {
                Some(s) => s,
                None => ReadSource::Leader,
            },
            r.consistency == match self.consistency {
                Some(c) => c,
                None => ReadConsistency::Linearizable,
            },
    {
        let source = match self.source {
            Some(s) => s,
            None => ReadSource::Leader,
        };
        let consistency = match self.consistency {
            Some(c) => c,
            None => ReadConsistency::Linearizable,
        };
        ReadRequest { key: self.key, source, consistency }
    }
}

impl ReadRequest {
    /// How this read gets its linearizer on node `self_id`.
    pub fn plan(&self, self_id: NodeId, current_leader: Option<NodeId>) -> (r: ReadPlan)
        ensures
            r == read_plan(self_id, current_leader, self.source, self.consistency),
    {
        plan_read(self_id, current_leader, self.source, self.consistency)
    }

    /// Reads the local state under `token`: waits while this node lags
    /// behind it; a stale read has no token and never waits.
    pub fn step(&self, sm: &StateMachine, token: Option<LinearizerData>) -> (r: ReadStep)
        requires
            sm.wf(),
        ensures
            match token {
                Some(t) if !caught_up(sm@.applied, t) => r is Wait,
                _ => r matches ReadStep::Value(v) && opt_bytes(v) == live_value(sm@.data, self.key@),
            },
    {
        if let Some(t) = token {
            if !linearizer_ready(sm.last_applied(), &t) {
                return ReadStep::Wait;
            }
        }
        ReadStep::Value(sm.get(&self.key))
    }
}

} // verus!
