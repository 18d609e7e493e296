//! The client handle: builds reads and writes, and stamps each write with
//! the client's identity and the next sequence number.
use vstd::prelude::*;

use crate::kv::{KVOperation, KVResponseView, Request, RequestOperation, Response, ResponseResult, KVResponse, ResponseResultView, ResponseView};
use crate::operator_read::ReadRequestBuilder;
use crate::operator_set::SetRequestBuilder;
use crate::state_machine::{is_live, live_value, StateMachine};
use crate::NodeId;

verus! {

/// A client of the store. Its writes carry `client_id` and increasing
/// sequence numbers, so that a write applied twice takes effect once.
#[derive(Clone, Debug, PartialEq, Eq)]
pub struct DistKV {
    client_id: NodeId,
    next_seq: u64,
}

pub open spec fn del_outcome(resp: ResponseView) -> Option<bool> {
    match resp {
        ResponseView::Result { res: ResponseResultView::KV(KVResponseView::Del { existed }), .. } => Some(existed),
        _ => None,
    }
}

impl DistKV {
    pub closed spec fn client_id(&self) -> NodeId {
        self.client_id
    }

    /// The sequence number the next write gets.
    pub closed spec fn next_seq(&self) -> u64 {
        self.next_seq
    }

    pub fn new(client_id: NodeId) -> (r: DistKV)
        ensures
            r.client_id() == client_id,
            r.next_seq() == 1,
    {
        DistKV { client_id, next_seq: 1 }
    }

    /// A write of `value` under `key`, to be configured.
    pub fn set(&self, key: String, value: Vec<u8>) -> (r: SetRequestBuilder)
        ensures
            r.key == key,
            r.value == value,
            r.return_previous is None,
            r.expected_revision is None,
    {
        SetRequestBuilder::new(key, value)
    }

    /// A read of `key`, to be configured.
    pub fn read(&self, key: String) -> (r: ReadRequestBuilder)
        ensures
            r.key == key,
            r.source is None,
            r.consistency is None,
    {
        ReadRequestBuilder::new(key)
    }

    /// The value of `key` in the local state, as it is; an empty value
    /// reads as none.
    pub fn eventual_read(&self, sm: &StateMachine, key: &String) -> (r: Option<Vec<u8>>)
        requires
            sm.wf(),
        ensures
            match live_value(sm@.data, key@) {
                Some(v) => if v.len() == 0 {
                    r is None
                } else {
                    r matches Some(b) && b@ == v
                },
                None => r is None,
            },
    {
        match sm.get(key) {
            Some(v) => if v.len() == 0 {
                None
            } else {
                Some(v)
            },
            None => None,
        }
    }

    /// The value of `key` in the local state with its revision; an empty
    /// value reads as none.
    pub fn get_with_revision(&self, sm: &StateMachine, key: &String) -> (r: Option<(Vec<u8>, u64)>)
        requires
            sm.wf(),
        ensures
            match r {
                Some((v, rev)) => is_live(sm@.data, key@) && Some(v@) == live_value(sm@.data, key@) && v@.len() > 0
                    && rev == sm@.data[key@].revision,
                None => !is_live(sm@.data, key@) || live_value(sm@.data, key@) == Some(Seq::<u8>::empty()),
            },
    {
        match sm.get_with_revision(key) {
            Some((v, rev)) => if v.len() == 0 {
                proof {
                    assert(v@ =~= Seq::<u8>::empty());
                }
                None
            } else {
                Some((v, rev))
            },
            None => None,
        }
    }

    /// The operation that deletes `key`.
    pub fn delete(&self, key: String) -> (r: KVOperation)
        ensures
            r == (KVOperation::Del { key }),
    {
        KVOperation::Del { key }
    }

    /// Stamps `op` with this client's id and the next sequence number, and
    /// advances it; `None` once the sequence numbers are used up.
    pub fn request(&mut self, op: KVOperation) -> (r: Option<Request>)
        ensures
            final(self).client_id() == old(self).client_id(),
            old(self).next_seq() == u64::MAX <==> r is None,
            r is None ==> final(self).next_seq() == old(self).next_seq(),
            r matches Some(req) ==> req == (Request {
                client_id: old(self).client_id(),
                seq_id: Some(old(self).next_seq()),
                op: RequestOperation::KV(op),
            }) && final(self).next_seq() == old(self).next_seq() + 1,
    {
        if self.next_seq == u64::MAX {
            return None;
        }
        let seq = self.next_seq;
        self.next_seq = seq + 1;
        Some(Request { client_id: self.client_id, seq_id: Some(seq), op: RequestOperation::KV(op) })
    }
}

/// Whether a delete found its key, from the reply of the state machine;
/// `None` for a reply of another kind.
pub fn delete_result(response: &Response) -> (r: Option<bool>)
    ensures
        r == del_outcome(response@),
{
    match response {
        Response::Result { res: ResponseResult::KV(KVResponse::Del { existed }), .. } => Some(*existed),
        _ => None,
    }
}

} // verus!
