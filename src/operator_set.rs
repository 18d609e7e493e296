//! Writes: the request a caller configures, the operation it becomes, and
//! how the applied reply is reported.
use vstd::prelude::*;

use crate::kv::{
    KVOperation, KVResponse, KVResponseView, Response, ResponseResult, ResponseResultView,
    ResponseView, SetResponse,
};

verus! {

/// A write of one key with its options settled. With an expected revision
/// it is a compare-and-swap, otherwise an unconditional set.
#[derive(Clone, Debug, PartialEq, Eq)]
pub struct SetRequest {
    pub key: String,
    pub value: Vec<u8>,
    pub return_previous: bool,
    pub expected_revision: Option<u64>,
}

/// A write being configured; the previous value is not returned unless
/// asked for.
#[derive(Clone, Debug, PartialEq, Eq)]
pub struct SetRequestBuilder {
    pub key: String,
    pub value: Vec<u8>,
    pub return_previous: Option<bool>,
    pub expected_revision: Option<u64>,
}

/// A write that failed.
#[derive(Clone, Debug, PartialEq, Eq)]
pub enum SetError {
    /// The compare-and-swap found another revision; nothing was written.
    RevisionMismatch { current_revision: u64 },
    Other(String),
}

impl SetRequestBuilder {
    pub fn new(key: String, value: Vec<u8>) -> (r: SetRequestBuilder)
        ensures
            r.key == key,
            r.value == value,
            r.return_previous is None,
            r.expected_revision is None,
    {
        SetRequestBuilder { key, value, return_previous: None, expected_revision: None }
    }

    /// Asks for the value the write replaces.
    pub fn with_previous(self) -> (r: SetRequestBuilder)
        ensures
            r == (SetRequestBuilder { return_previous: Some(true), ..self }),
    {
        SetRequestBuilder { return_previous: Some(true), ..self }
    }

    /// Makes the write a compare-and-swap against `revision`.
    pub fn expected_revision(self, revision: u64) -> (r: SetRequestBuilder)
        ensures
            r == (SetRequestBuilder { expected_revision: Some(revision), ..self }),
    {
        SetRequestBuilder { expected_revision: Some(revision), ..self }
    }

    pub fn build(self) -> (r: SetRequest)
        ensures
            r.key == self.key,
            r.value == self.value,
            r.return_previous == (self.return_previous == Some(true)),
            r.expected_revision == self.expected_revision,
    {
        let return_previous = match self.return_previous {
            Some(b) => b,
            None => false,
        };
        SetRequest {
            key: self.key,
            value: self.value,
            return_previous,
            expected_revision: self.expected_revision,
        }
    }
}

/// The outcome a reply to a write stands for: the reply of a set or of a
/// successful compare-and-swap, the revision a failed one found, or
/// `None` for a reply of another kind.
pub open spec fn set_outcome(resp: ResponseView) -> Option<Result<crate::kv::SetResponseView, u64>> {
    match resp {
        ResponseView::Result { res: ResponseResultView::KV(KVResponseView::Put(w)), .. } => Some(Ok(w)),
        ResponseView::Result {
            res: ResponseResultView::KV(KVResponseView::Cas { success, response }),
            ..
        } => if success {
            Some(Ok(response))
        } else {
            Some(Err(response.revision))
        },
        _ => None,
    }
}

impl SetRequest {
    /// The operation the state machine applies.
    pub fn operation(self) -> (r: KVOperation)
        ensures
            match self.expected_revision {
                Some(rev) => r == (KVOperation::Cas {
                    key: self.key,
                    expected_revision: rev,
                    value: self.value,
                    return_previous: self.return_previous,
                }),
                None => r == (KVOperation::Put {
                    key: self.key,
                    value: self.value,
                    return_previous: self.return_previous,
                }),
            },
    {
        match self.expected_revision {
            Some(expected_revision) => KVOperation::Cas {
                key: self.key,
                expected_revision,
                value: self.value,
                return_previous: self.return_previous,
            },
            None => KVOperation::Put {
                key: self.key,
                value: self.value,
                return_previous: self.return_previous,
            },
        }
    }
}

/// The result of a write from the reply of the state machine: a failed
/// compare-and-swap is `RevisionMismatch` with the revision it found, a
/// reply of another kind is `Other`.
pub fn set_result(response: Response) -> (r: Result<SetResponse, SetError>)
    ensures
        match set_outcome(response@) {
            Some(Ok(w)) => r matches Ok(s) && s@ == w,
            Some(Err(rev)) => r matches Err(SetError::RevisionMismatch { current_revision }) && current_revision
                == rev,
            None => r matches Err(SetError::Other(_)),
        },
{
    match response {
        Response::Result { res: ResponseResult::KV(KVResponse::Put(s)), .. } => Ok(s),
        Response::Result { res: ResponseResult::KV(KVResponse::Cas { success, response }), .. } => {
            if success {
                Ok(response)
            } else {
                Err(SetError::RevisionMismatch { current_revision: response.revision })
            }
        },
        _ => Err(SetError::Other("unexpected response type".to_string())),
    }
}

} // verus!
