//! Client requests, their operations, and the responses the state machine
//! records for them, each with an abstract view.
use vstd::prelude::*;

use crate::NodeId;

verus! {

/// The view of an optional byte buffer.
pub open spec fn opt_bytes(o: Option<Vec<u8>>) -> Option<Seq<u8>> {
    match o {
        Some(v) => Some(v@),
        None => None,
    }
}

/// A write issued by a client. `(client_id, seq_id)`, when `seq_id` is
/// present, identifies the request for duplicate suppression.
#[derive(Clone, Debug, PartialEq, Eq)]
pub struct Request {
    pub client_id: NodeId,
    pub seq_id: Option<u64>,
    pub op: RequestOperation,
}

#[derive(Clone, Debug, PartialEq, Eq)]
pub enum RequestOperation {
    KV(KVOperation),
}

#[derive(Clone, Debug, PartialEq, Eq)]
pub enum KVOperation {
    Put { key: String, value: Vec<u8>, return_previous: bool },
    Del { key: String },
    Cas { key: String, expected_revision: u64, value: Vec<u8>, return_previous: bool },
}

/// Reply to a Set, or to a Cas.
#[derive(Clone, Debug, PartialEq, Eq)]
pub struct SetResponse {
    pub prev_value: Option<Vec<u8>>,
    pub revision: u64,
}

#[derive(Clone, Debug, PartialEq, Eq)]
pub enum KVResponse {
    Put(SetResponse),
    Del { existed: bool },
    Cas { success: bool, response: SetResponse },
}

#[derive(Clone, Debug, PartialEq, Eq)]
pub enum ResponseResult {
    Empty,
    KV(KVResponse),
}

/// The envelope returned for an applied log entry.
#[derive(Clone, Debug, PartialEq, Eq)]
pub enum Response {
    Empty,
    Result { client_id: NodeId, seq_id: Option<u64>, res: ResponseResult },
}

pub enum KVOperationView {
    Put { key: Seq<char>, value: Seq<u8>, return_previous: bool },
    Del { key: Seq<char> },
    Cas { key: Seq<char>, expected_revision: u64, value: Seq<u8>, return_previous: bool },
}

pub struct RequestView {
    pub client_id: NodeId,
    pub seq_id: Option<u64>,
    pub op: KVOperationView,
}

pub struct SetResponseView {
    pub prev_value: Option<Seq<u8>>,
    pub revision: u64,
}

pub enum KVResponseView {
    Put(SetResponseView),
    Del { existed: bool },
    Cas { success: bool, response: SetResponseView },
}

pub enum ResponseResultView {
    Empty,
    KV(KVResponseView),
}

pub enum ResponseView {
    Empty,
    Result { client_id: NodeId, seq_id: Option<u64>, res: ResponseResultView },
}

impl View for KVOperation {
    type V = KVOperationView;

    open spec fn view(&self) -> KVOperationView {
        match self {
            KVOperation::Put { key, value, return_previous } => KVOperationView::Put {
                key: key@,
                value: value@,
                return_previous: *return_previous,
            },
            KVOperation::Del { key } => KVOperationView::Del { key: key@ },
            KVOperation::Cas { key, expected_revision, value, return_previous } => KVOperationView::Cas {
                key: key@,
                expected_revision: *expected_revision,
                value: value@,
                return_previous: *return_previous,
            },
        }
    }
}

impl View for Request {
    type V = RequestView;

    open spec fn view(&self) -> RequestView {
        match self.op {
            RequestOperation::KV(op) => RequestView { client_id: self.client_id, seq_id: self.seq_id, op: op@ },
        }
    }
}

impl View for SetResponse {
    type V = SetResponseView;

    open spec fn view(&self) -> SetResponseView {
        SetResponseView { prev_value: opt_bytes(self.prev_value), revision: self.revision }
    }
}

impl View for KVResponse {
    type V = KVResponseView;

    open spec fn view(&self) -> KVResponseView {
        match self {
            KVResponse::Put(r) => KVResponseView::Put(r@),
            KVResponse::Del { existed } => KVResponseView::Del { existed: *existed },
            KVResponse::Cas { success, response } => KVResponseView::Cas { success: *success, response: response@ },
        }
    }
}

impl View for ResponseResult {
    type V = ResponseResultView;

    open spec fn view(&self) -> ResponseResultView {
        match self {
            ResponseResult::Empty => ResponseResultView::Empty,
            ResponseResult::KV(r) => ResponseResultView::KV(r@),
        }
    }
}

impl View for Response {
    type V = ResponseView;

    open spec fn view(&self) -> ResponseView {
        match self {
            Response::Empty => ResponseView::Empty,
            Response::Result { client_id, seq_id, res } => ResponseView::Result {
                client_id: *client_id,
                seq_id: *seq_id,
                res: res@,
            },
        }
    }
}

/// A copy of a byte buffer.
pub fn copy_bytes(v: &Vec<u8>) -> (r: Vec<u8>)
    ensures
        r@ == v@,
{
    let r = v.clone();
    assert(r@ =~= v@);
    r
}

pub fn copy_opt_bytes(o: &Option<Vec<u8>>) -> (r: Option<Vec<u8>>)
    ensures
        opt_bytes(r) == opt_bytes(*o),
{
    match o {
        Some(v) => Some(copy_bytes(v)),
        None => None,
    }
}

impl SetResponse {
    pub fn copy(&self) -> (r: SetResponse)
        ensures
            r@ == self@,
    {
        SetResponse { prev_value: copy_opt_bytes(&self.prev_value), revision: self.revision }
    }
}

impl KVResponse {
    pub fn copy(&self) -> (r: KVResponse)
        ensures
            r@ == self@,
    {
        match self {
            KVResponse::Put(s) => KVResponse::Put(s.copy()),
            KVResponse::Del { existed } => KVResponse::Del { existed: *existed },
            KVResponse::Cas { success, response } => KVResponse::Cas { success: *success, response: response.copy() },
        }
    }
}

impl Response {
    pub fn copy(&self) -> (r: Response)
        ensures
            r@ == self@,
    {
        match self {
            Response::Empty => Response::Empty,
            Response::Result { client_id, seq_id, res } => {
                let res2 = match res {
                    ResponseResult::Empty => ResponseResult::Empty,
                    ResponseResult::KV(k) => ResponseResult::KV(k.copy()),
                };
                Response::Result { client_id: *client_id, seq_id: *seq_id, res: res2 }
            },
        }
    }
}

impl KVOperation {
    pub fn copy(&self) -> (r: KVOperation)
        ensures
            r@ == self@,
    {
        match self {
            KVOperation::Put { key, value, return_previous } => KVOperation::Put {
                key: key.clone(),
                value: copy_bytes(value),
                return_previous: *return_previous,
            },
            KVOperation::Del { key } => KVOperation::Del { key: key.clone() },
            KVOperation::Cas { key, expected_revision, value, return_previous } => KVOperation::Cas {
                key: key.clone(),
                expected_revision: *expected_revision,
                value: copy_bytes(value),
                return_previous: *return_previous,
            },
        }
    }
}

impl Request {
    pub fn copy(&self) -> (r: Request)
        ensures
            r@ == self@,
    {
        let op = match &self.op {
            RequestOperation::KV(op) => RequestOperation::KV(op.copy()),
        };
        Request { client_id: self.client_id, seq_id: self.seq_id, op }
    }
}

} // verus!
