//! The replicated state machine: per-key values with revisions, compare-and-
//! swap, and per-client duplicate suppression. Applying an entry is a pure
//! function of the state and the entry, `apply_entry`.
use vstd::prelude::*;

use crate::assoc::{
    keys_unique, lemma_pairs_absent, lemma_pairs_index, lemma_pairs_member, lemma_pairs_push,
    lemma_pairs_update, pairs_to_map,
};
use crate::kv::{
    copy_opt_bytes, opt_bytes, KVOperation, KVOperationView, KVResponse, KVResponseView, Request,
    RequestOperation, RequestView, Response, ResponseResult, ResponseResultView, ResponseView,
    SetResponse, SetResponseView,
};
use crate::protocol::LogId;
use crate::snapshot::{clients_distinct, keys_distinct, revisions_in_range, Snapshot, SnapshotError};
use crate::NodeId;

verus! {

/// What the state machine holds for a key. A deleted key keeps its last
/// revision with no value, so that a later write gets a greater revision.
pub struct Slot {
    pub value: Option<Seq<u8>>,
    pub revision: u64,
}

/// Abstract state: the key space, the last recorded reply per client with
/// its sequence number, and the last applied log position.
pub struct StateView {
    pub data: Map<Seq<char>, Slot>,
    pub sessions: Map<NodeId, (u64, ResponseView)>,
    pub applied: Option<LogId>,
}

pub open spec fn is_live(data: Map<Seq<char>, Slot>, key: Seq<char>) -> bool {
    data.contains_key(key) && data[key].value is Some
}

/// The value a read returns for `key`.
pub open spec fn live_value(data: Map<Seq<char>, Slot>, key: Seq<char>) -> Option<Seq<u8>> {
    if data.contains_key(key) {
        data[key].value
    } else {
        None
    }
}

/// The revision a Cas compares against: 0 when the key holds no value.
pub open spec fn current_revision(data: Map<Seq<char>, Slot>, key: Seq<char>) -> u64 {
    if is_live(data, key) {
        data[key].revision
    } else {
        0
    }
}

/// The last revision the key was given, deleted or not.
pub open spec fn last_revision(data: Map<Seq<char>, Slot>, key: Seq<char>) -> int {
    if data.contains_key(key) {
        data[key].revision as int
    } else {
        0
    }
}

/// An unconditional write of `value` under `key`.
pub open spec fn write_value(
    data: Map<Seq<char>, Slot>,
    key: Seq<char>,
    value: Seq<u8>,
    return_previous: bool,
) -> (Map<Seq<char>, Slot>, SetResponseView) {
    let rev = (last_revision(data, key) + 1) as u64;
    (
        data.insert(key, Slot { value: Some(value), revision: rev }),
        SetResponseView {
            prev_value: if return_previous {
                live_value(data, key)
            } else {
                None
            },
            revision: rev,
        },
    )
}

/// One operation on the key space and its reply.
pub open spec fn apply_op(data: Map<Seq<char>, Slot>, op: KVOperationView) -> (
    Map<Seq<char>, Slot>,
    KVResponseView,
) {
    match op {
        KVOperationView::Put { key, value, return_previous } => {
            let (d, r) = write_value(data, key, value, return_previous);
            (d, KVResponseView::Put(r))
        },
        KVOperationView::Del { key } => {
            if is_live(data, key) {
                (
                    data.insert(key, Slot { value: None, revision: data[key].revision }),
                    KVResponseView::Del { existed: true },
                )
            } else {
                (data, KVResponseView::Del { existed: false })
            }
        },
        KVOperationView::Cas { key, expected_revision, value, return_previous } => {
            if expected_revision == current_revision(data, key) {
                let (d, r) = write_value(data, key, value, return_previous);
                (d, KVResponseView::Cas { success: true, response: r })
            } else {
                (
                    data,
                    KVResponseView::Cas {
                        success: false,
                        response: SetResponseView {
                            prev_value: None,
                            revision: current_revision(data, key),
                        },
                    },
                )
            }
        },
    }
}

/// The request was applied before: its client's last recorded sequence
/// number is the request's own.
pub open spec fn is_duplicate(sessions: Map<NodeId, (u64, ResponseView)>, req: RequestView) -> bool {
    &&& req.seq_id is Some
    &&& sessions.contains_key(req.client_id)
    &&& sessions[req.client_id].0 == req.seq_id->0
}

/// A client request against the key space and the sessions.
pub open spec fn apply_request(
    data: Map<Seq<char>, Slot>,
    sessions: Map<NodeId, (u64, ResponseView)>,
    req: RequestView,
) -> (Map<Seq<char>, Slot>, Map<NodeId, (u64, ResponseView)>, ResponseView) {
    if is_duplicate(sessions, req) {
        (data, sessions, sessions[req.client_id].1)
    } else {
        let (d, r) = apply_op(data, req.op);
        let resp = ResponseView::Result {
            client_id: req.client_id,
            seq_id: req.seq_id,
            res: ResponseResultView::KV(r),
        };
        let s = match req.seq_id {
            Some(seq) => sessions.insert(req.client_id, (seq, resp)),
            None => sessions,
        };
        (d, s, resp)
    }
}

/// What a log entry carries: a blank marker, or a client request.
#[derive(Clone, Debug, PartialEq, Eq)]
pub enum EntryPayload {
    Blank,
    Normal(Request),
}

#[derive(Clone, Debug, PartialEq, Eq)]
pub struct Entry {
    pub log_id: LogId,
    pub payload: EntryPayload,
}

pub struct EntryView {
    pub log_id: LogId,
    pub payload: Option<RequestView>,
}

impl View for Entry {
    type V = EntryView;

    open spec fn view(&self) -> EntryView {
        EntryView {
            log_id: self.log_id,
            payload: match self.payload {
                EntryPayload::Blank => None,
                EntryPayload::Normal(r) => Some(r@),
            },
        }
    }
}

/// Applying one committed entry.
pub open spec fn apply_entry(s: StateView, e: EntryView) -> (StateView, ResponseView) {
    match e.payload {
        None => (StateView { applied: Some(e.log_id), ..s }, ResponseView::Empty),
        Some(req) => {
            let (d, ss, r) = apply_request(s.data, s.sessions, req);
            (StateView { data: d, sessions: ss, applied: Some(e.log_id) }, r)
        },
    }
}

/// Index past which revisions cannot have grown: every applied entry adds
/// at most one to one key's revision.
pub open spec fn revision_bound(applied: Option<LogId>) -> int {
    match applied {
        Some(l) => l.index + 1,
        None => 0,
    }
}

/// Every stored revision is at least 1 and within the applied bound.
pub open spec fn revisions_bounded(s: StateView) -> bool {
    forall|k: Seq<char>| #[trigger]
        s.data.contains_key(k) ==> 1 <= s.data[k].revision <= revision_bound(s.applied)
}

/// `log_id` may be applied after `applied`: entries come in log order, and
/// the index leaves room for one more revision.
pub open spec fn can_follow(applied: Option<LogId>, log_id: LogId) -> bool {
    &&& log_id.index < u64::MAX
    &&& match applied {
        Some(a) => a.index < log_id.index,
        None => true,
    }
}

/// One stored key.
#[derive(Clone, Debug, PartialEq, Eq)]
pub struct KvEntry {
    pub key: String,
    pub value: Option<Vec<u8>>,
    pub revision: u64,
}

/// The last reply recorded for a client.
#[derive(Clone, Debug, PartialEq, Eq)]
pub struct SessionRecord {
    pub client_id: NodeId,
    pub seq_id: u64,
    pub response: Response,
}

pub open spec fn entry_pairs(entries: Seq<KvEntry>) -> Seq<(Seq<char>, Slot)> {
    entries.map_values(|e: KvEntry| (e.key@, Slot { value: opt_bytes(e.value), revision: e.revision }))
}

pub open spec fn session_pairs(records: Seq<SessionRecord>) -> Seq<(NodeId, (u64, ResponseView))> {
    records.map_values(|r: SessionRecord| (r.client_id, (r.seq_id, r.response@)))
}

/// The state machine of one node.
#[derive(Clone, Debug, PartialEq, Eq)]
pub struct StateMachine {
    entries: Vec<KvEntry>,
    sessions: Vec<SessionRecord>,
    last_applied: Option<LogId>,
}

impl View for StateMachine {
    type V = StateView;

    closed spec fn view(&self) -> StateView {
        StateView {
            data: pairs_to_map(entry_pairs(self.entries@)),
            sessions: pairs_to_map(session_pairs(self.sessions@)),
            applied: self.last_applied,
        }
    }
}

fn find_key(entries: &Vec<KvEntry>, key: &String) -> (r: Option<usize>)
    ensures
        match r {
            Some(i) => i < entries.len() && entries@[i as int].key@ == key@,
            None => forall|i: int| 0 <= i < entries.len() ==> entries@[i].key@ != key@,
        },
{
    let mut i: usize = 0;
    while i < entries.len()
        invariant
            i <= entries.len(),
            forall|j: int| 0 <= j < i ==> entries@[j].key@ != key@,
        decreases entries.len() - i,
    {
        if entries[i].key == *key {
            return Some(i);
        }
        i = i + 1;
    }
    None
}

fn find_client(records: &Vec<SessionRecord>, client_id: NodeId) -> (r: Option<usize>)
    ensures
        match r {
            Some(i) => i < records.len() && records@[i as int].client_id == client_id,
            None => forall|i: int| 0 <= i < records.len() ==> records@[i].client_id != client_id,
        },
{
    let mut i: usize = 0;
    while i < records.len()
        invariant
            i <= records.len(),
            forall|j: int| 0 <= j < i ==> records@[j].client_id != client_id,
        decreases records.len() - i,
    {
        if records[i].client_id == client_id {
            return Some(i);
        }
        i = i + 1;
    }
    None
}

impl StateMachine {
    /// Invariant: keys and clients occur once each, and no revision runs
    /// ahead of the applied log.
    pub closed spec fn wf(&self) -> bool {
        &&& self.unique()
        &&& revisions_bounded(self@)
    }

    closed spec fn unique(&self) -> bool {
        &&& keys_unique(entry_pairs(self.entries@))
        &&& keys_unique(session_pairs(self.sessions@))
    }

    /// An empty state machine that has applied nothing.
    pub fn new() -> (r: StateMachine)
        ensures
            r.wf(),
            r@.data == Map::<Seq<char>, Slot>::empty(),
            r@.sessions == Map::<NodeId, (u64, ResponseView)>::empty(),
            r@.applied is None,
    {
        let r = StateMachine { entries: Vec::new(), sessions: Vec::new(), last_applied: None };
        assert(entry_pairs(r.entries@) =~= Seq::empty());
        assert(session_pairs(r.sessions@) =~= Seq::empty());
        r
    }

    /// The last applied log position.
    pub fn last_applied(&self) -> (r: Option<LogId>)
        ensures
            r == self@.applied,
    {
        self.last_applied
    }

    proof fn lemma_lookup(&self, key: Seq<char>, r: Option<usize>)
        requires
            self.unique(),
            match r {
                Some(i) => i < self.entries.len() && self.entries@[i as int].key@ == key,
                None => forall|i: int| 0 <= i < self.entries.len() ==> self.entries@[i].key@ != key,
            },
        ensures
            match r {
                Some(i) => self@.data.contains_key(key) && self@.data[key] == entry_pairs(self.entries@)[i as int].1,
                None => !self@.data.contains_key(key),
            },
    {
        match r {
            Some(i) => lemma_pairs_index(entry_pairs(self.entries@), i as int),
            None => lemma_pairs_absent(entry_pairs(self.entries@), key),
        }
    }

    /// The value stored under `key`, if it holds one.
    pub fn get(&self, key: &String) -> (r: Option<Vec<u8>>)
        requires
            self.wf(),
        ensures
            opt_bytes(r) == live_value(self@.data, key@),
    {
        let idx = find_key(&self.entries, key);
        proof { self.lemma_lookup(key@, idx); }
        match idx {
            Some(i) => copy_opt_bytes(&self.entries[i].value),
            None => None,
        }
    }

    /// The value stored under `key` with its revision, if it holds one.
    pub fn get_with_revision(&self, key: &String) -> (r: Option<(Vec<u8>, u64)>)
        requires
            self.wf(),
        ensures
            match r {
                Some((v, rev)) => is_live(self@.data, key@) && Some(v@) == live_value(self@.data, key@)
                    && rev == self@.data[key@].revision,
                None => !is_live(self@.data, key@),
            },
    {
        let idx = find_key(&self.entries, key);
        proof { self.lemma_lookup(key@, idx); }
        match idx {
            Some(i) => match &self.entries[i].value {
                Some(v) => Some((crate::kv::copy_bytes(v), self.entries[i].revision)),
                None => None,
            },
            None => None,
        }
    }

    fn write_value(&mut self, key: String, value: Vec<u8>, return_previous: bool) -> (r: SetResponse)
        requires
            old(self).unique(),
            last_revision(old(self)@.data, key@) < u64::MAX,
        ensures
            final(self).unique(),
            (final(self)@.data, r@) == write_value(old(self)@.data, key@, value@, return_previous),
            final(self).sessions == old(self).sessions,
            final(self)@.applied == old(self)@.applied,
    {
        let ghost k = key@;
        let ghost v = value@;
        let ghost old_pairs = entry_pairs(self.entries@);
        let idx = find_key(&self.entries, &key);
        proof { self.lemma_lookup(k, idx); }
        match idx {
            Some(i) => {
                let rev = self.entries[i].revision + 1;
                let prev = if return_previous {
                    copy_opt_bytes(&self.entries[i].value)
                } else {
                    None
                };
                self.entries.set(i, KvEntry { key, value: Some(value), revision: rev });
                proof {
                    let slot = Slot { value: Some(v), revision: rev };
                    assert(entry_pairs(self.entries@) =~= old_pairs.update(i as int, (old_pairs[i as int].0, slot)));
                    lemma_pairs_update(old_pairs, i as int, slot);
                }
                SetResponse { prev_value: prev, revision: rev }
            },
            None => {
                self.entries.push(KvEntry { key, value: Some(value), revision: 1 });
                proof {
                    let slot = Slot { value: Some(v), revision: 1 };
                    assert(entry_pairs(self.entries@) =~= old_pairs.push((k, slot)));
                    lemma_pairs_push(old_pairs, k, slot);
                }
                SetResponse { prev_value: None, revision: 1 }
            },
        }
    }

    fn delete(&mut self, key: String) -> (r: bool)
        requires
            old(self).unique(),
        ensures
            final(self).unique(),
            (final(self)@.data, KVResponseView::Del { existed: r }) == apply_op(
                old(self)@.data,
                KVOperationView::Del { key: key@ },
            ),
            final(self).sessions == old(self).sessions,
            final(self)@.applied == old(self)@.applied,
    {
        let ghost old_pairs = entry_pairs(self.entries@);
        let idx = find_key(&self.entries, &key);
        proof { self.lemma_lookup(key@, idx); }
        match idx {
            Some(i) => {
                if self.entries[i].value.is_some() {
                    let rev = self.entries[i].revision;
                    self.entries.set(i, KvEntry { key, value: None, revision: rev });
                    proof {
                        let slot = Slot { value: None, revision: rev };
                        assert(entry_pairs(self.entries@) =~= old_pairs.update(i as int, (old_pairs[i as int].0, slot)));
                        lemma_pairs_update(old_pairs, i as int, slot);
                    }
                    true
                } else {
                    false
                }
            },
            None => false,
        }
    }

    fn current_revision(&self, key: &String) -> (r: u64)
        requires
            self.unique(),
        ensures
            r == current_revision(self@.data, key@),
    {
        let idx = find_key(&self.entries, key);
        proof { self.lemma_lookup(key@, idx); }
        match idx {
            Some(i) => if self.entries[i].value.is_some() {
                self.entries[i].revision
            } else {
                0
            },
            None => 0,
        }
    }

    fn apply_op(&mut self, op: KVOperation) -> (r: KVResponse)
        requires
            old(self).unique(),
            forall|k: Seq<char>| #[trigger] old(self)@.data.contains_key(k) ==> old(self)@.data[k].revision < u64::MAX,
        ensures
            final(self).unique(),
            (final(self)@.data, r@) == apply_op(old(self)@.data, op@),
            final(self).sessions == old(self).sessions,
            final(self)@.applied == old(self)@.applied,
    {
        match op {
            KVOperation::Put { key, value, return_previous } => {
                KVResponse::Put(self.write_value(key, value, return_previous))
            },
            KVOperation::Del { key } => {
                let existed = self.delete(key);
                KVResponse::Del { existed }
            },
            KVOperation::Cas { key, expected_revision, value, return_previous } => {
                let current = self.current_revision(&key);
                if expected_revision == current {
                    let response = self.write_value(key, value, return_previous);
                    KVResponse::Cas { success: true, response }
                } else {
                    KVResponse::Cas {
                        success: false,
                        response: SetResponse { prev_value: None, revision: current },
                    }
                }
            },
        }
    }

    fn apply_request(&mut self, req: Request) -> (r: Response)
        requires
            old(self).unique(),
            forall|k: Seq<char>| #[trigger] old(self)@.data.contains_key(k) ==> old(self)@.data[k].revision < u64::MAX,
        ensures
            final(self).unique(),
            (final(self)@.data, final(self)@.sessions, r@) == apply_request(
                old(self)@.data,
                old(self)@.sessions,
                req@,
            ),
            final(self)@.applied == old(self)@.applied,
    {
        let ghost rv = req@;
        let ghost old_pairs = session_pairs(self.sessions@);
        let found = find_client(&self.sessions, req.client_id);
        proof {
            match found {
                Some(i) => lemma_pairs_index(old_pairs, i as int),
                None => lemma_pairs_absent(old_pairs, req.client_id),
            }
        }
        if let Some(i) = found {
            if let Some(seq) = req.seq_id {
                if self.sessions[i].seq_id == seq {
                    return self.sessions[i].response.copy();
                }
            }
        }
        let client_id = req.client_id;
        let seq_id = req.seq_id;
        let res = match req.op {
            RequestOperation::KV(op) => self.apply_op(op),
        };
        let resp = Response::Result { client_id, seq_id, res: ResponseResult::KV(res) };
        if let Some(seq) = seq_id {
            let record = SessionRecord { client_id, seq_id: seq, response: resp.copy() };
            let ghost val = (seq, resp@);
            match found {
                Some(i) => {
                    self.sessions.set(i, record);
                    proof {
                        assert(session_pairs(self.sessions@) =~= old_pairs.update(i as int, (old_pairs[i as int].0, val)));
                        lemma_pairs_update(old_pairs, i as int, val);
                    }
                },
                None => {
                    self.sessions.push(record);
                    proof {
                        assert(session_pairs(self.sessions@) =~= old_pairs.push((client_id, val)));
                        lemma_pairs_push(old_pairs, client_id, val);
                    }
                },
            }
        }
        resp
    }

    /// Applies one committed entry, in log order.
    pub fn apply(&mut self, entry: Entry) -> (r: Response)
        requires
            old(self).wf(),
            can_follow(old(self)@.applied, entry.log_id),
        ensures
            final(self).wf(),
            (final(self)@, r@) == apply_entry(old(self)@, entry@),
    {
        let ghost e = entry@;
        let ghost s0 = self@;
        let log_id = entry.log_id;
        let r = match entry.payload {
            EntryPayload::Blank => Response::Empty,
            EntryPayload::Normal(req) => self.apply_request(req),
        };
        self.last_applied = Some(log_id);
        proof {
            lemma_apply_entry_bounded(s0, e);
        }
        r
    }
}

/// Applying an entry that may follow the state keeps every revision within
/// the bound of the new applied position.
pub proof fn lemma_apply_entry_bounded(s: StateView, e: EntryView)
    requires
        revisions_bounded(s),
        can_follow(s.applied, e.log_id),
    ensures
        revisions_bounded(apply_entry(s, e).0),
{
    let t = apply_entry(s, e).0;
    assert forall|k: Seq<char>| #[trigger] t.data.contains_key(k) implies t.data[k].revision <= revision_bound(t.applied) by {
        if s.data.contains_key(k) {
            assert(1 <= s.data[k].revision <= revision_bound(s.applied));
        }
    }
}


/// Re-applying a request that carries a sequence number changes nothing and
/// hands back the reply recorded the first time.
pub proof fn lemma_reapply_is_noop(
    data: Map<Seq<char>, Slot>,
    sessions: Map<NodeId, (u64, ResponseView)>,
    req: RequestView,
)
    requires
        req.seq_id is Some,
    ensures
        ({
            let (d1, s1, r1) = apply_request(data, sessions, req);
            apply_request(d1, s1, req) == (d1, s1, r1)
        }),
{
}

/// The same request applied `n` times in a row: the final key space and
/// sessions, and the reply of each application.
pub open spec fn apply_repeatedly(
    data: Map<Seq<char>, Slot>,
    sessions: Map<NodeId, (u64, ResponseView)>,
    req: RequestView,
    n: nat,
) -> (Map<Seq<char>, Slot>, Map<NodeId, (u64, ResponseView)>, Seq<ResponseView>)
    decreases n,
{
    if n == 0 {
        (data, sessions, Seq::empty())
    } else {
        let (d0, s0, rs) = apply_repeatedly(data, sessions, req, (n - 1) as nat);
        let (d1, s1, r) = apply_request(d0, s0, req);
        (d1, s1, rs.push(r))
    }
}

/// Exactly once: a request with a sequence number applied `n >= 1` times
/// leaves the state as one application does, and every application
/// replies what the first did.
pub proof fn lemma_exactly_once(
    data: Map<Seq<char>, Slot>,
    sessions: Map<NodeId, (u64, ResponseView)>,
    req: RequestView,
    n: nat,
)
    requires
        req.seq_id is Some,
        n >= 1,
    ensures
        ({
            let (d1, s1, r1) = apply_request(data, sessions, req);
            let (dn, sn, rs) = apply_repeatedly(data, sessions, req, n);
            &&& dn == d1
            &&& sn == s1
            &&& rs.len() == n
            &&& forall|i: int| 0 <= i < n ==> rs[i] == r1
        }),
    decreases n,
{
    let (d1, s1, r1) = apply_request(data, sessions, req);
    if n > 1 {
        lemma_exactly_once(data, sessions, req, (n - 1) as nat);
        lemma_reapply_is_noop(data, sessions, req);
    } else {
        let (d0, s0, rs0) = apply_repeatedly(data, sessions, req, 0);
        assert(rs0.push(r1) =~= seq![r1]);
    }
}

/// Revisions never go back: a key keeps at least its revision whatever is
/// applied, and a successful write of a key gives it exactly one more than
/// the last revision it had.
pub proof fn lemma_revision_monotonic(data: Map<Seq<char>, Slot>, op: KVOperationView)
    requires
        forall|k: Seq<char>| #[trigger] data.contains_key(k) ==> data[k].revision < u64::MAX,
    ensures
        ({
            let (d, r) = apply_op(data, op);
            &&& forall|k: Seq<char>| #[trigger]
                data.contains_key(k) ==> d.contains_key(k) && d[k].revision >= data[k].revision
            &&& match (op, r) {
                (KVOperationView::Put { key, .. }, KVResponseView::Put(w)) => w.revision == last_revision(data, key) + 1
                    && d[key].revision == w.revision,
                (KVOperationView::Cas { key, .. }, KVResponseView::Cas { success: true, response: w }) => w.revision
                    == last_revision(data, key) + 1 && d[key].revision == w.revision,
                _ => true,
            }
        }),
{
}

/// Compare-and-swap safety: a Cas succeeds exactly when the key's current
/// revision is the expected one, and a failing Cas leaves the key space
/// as it was and reports the current revision.
pub proof fn lemma_cas_safety(
    data: Map<Seq<char>, Slot>,
    key: Seq<char>,
    expected_revision: u64,
    value: Seq<u8>,
    return_previous: bool,
)
    ensures
        ({
            let (d, r) = apply_op(
                data,
                KVOperationView::Cas { key, expected_revision, value, return_previous },
            );
            &&& r is Cas
            &&& r->Cas_success <==> expected_revision == current_revision(data, key)
            &&& !r->Cas_success ==> d == data && r->Cas_response.revision == current_revision(data, key)
        }),
{
}

/// A Cas that expects revision 0 succeeds exactly when the key holds no
/// value.
pub proof fn lemma_cas_zero_creates(
    s: StateView,
    key: Seq<char>,
    value: Seq<u8>,
    return_previous: bool,
)
    requires
        revisions_bounded(s),
    ensures
        apply_op(s.data, KVOperationView::Cas { key, expected_revision: 0, value, return_previous }).1->Cas_success
            <==> !is_live(s.data, key),
{
    if s.data.contains_key(key) {
        assert(1 <= s.data[key].revision);
    }
}

fn copy_entry(e: &KvEntry) -> (r: KvEntry)
    ensures
        r.key@ == e.key@,
        crate::kv::opt_bytes(r.value) == crate::kv::opt_bytes(e.value),
        r.revision == e.revision,
{
    KvEntry { key: e.key.clone(), value: copy_opt_bytes(&e.value), revision: e.revision }
}

fn copy_record(s: &SessionRecord) -> (r: SessionRecord)
    ensures
        r.client_id == s.client_id,
        r.seq_id == s.seq_id,
        r.response@ == s.response@,
{
    SessionRecord { client_id: s.client_id, seq_id: s.seq_id, response: s.response.copy() }
}

impl StateMachine {
    /// An image of the current state.
    pub fn snapshot(&self) -> (r: Snapshot)
        requires
            self.wf(),
        ensures
            r@ == self@,
            r.is_valid(),
    {
        let mut entries: Vec<KvEntry> = Vec::new();
        let mut i: usize = 0;
        while i < self.entries.len()
            invariant
                i <= self.entries.len(),
                entries.len() == i,
                forall|j: int| 0 <= j < i ==> entry_pairs(entries@)[j] == entry_pairs(self.entries@)[j]
                    && #[trigger] entries@[j].revision == self.entries@[j].revision,
            decreases self.entries.len() - i,
        {
            entries.push(copy_entry(&self.entries[i]));
            i = i + 1;
        }
        let mut sessions: Vec<SessionRecord> = Vec::new();
        let mut i: usize = 0;
        while i < self.sessions.len()
            invariant
                i <= self.sessions.len(),
                sessions.len() == i,
                forall|j: int| 0 <= j < i ==> (#[trigger] sessions@[j]).client_id == self.sessions@[j].client_id
                    && sessions@[j].seq_id == self.sessions@[j].seq_id
                    && sessions@[j].response@ == self.sessions@[j].response@,
            decreases self.sessions.len() - i,
        {
            sessions.push(copy_record(&self.sessions[i]));
            i = i + 1;
        }
        assert(entry_pairs(entries@) =~= entry_pairs(self.entries@));
        assert(session_pairs(sessions@) =~= session_pairs(self.sessions@));
        let r = Snapshot { entries, sessions, last_applied: self.last_applied };
        proof {
            let p = entry_pairs(self.entries@);
            assert forall|j: int| 0 <= j < r.entries.len() implies 1 <= #[trigger] r.entries@[j].revision
                <= revision_bound(r.last_applied) by {
                lemma_pairs_index(p, j);
                assert(self@.data.contains_key(p[j].0));
            }
        }
        r
    }

    /// Replaces the whole state with the image, if it is valid; otherwise
    /// leaves the state as it was and says what is wrong with the image.
    pub fn install_snapshot(&mut self, snap: Snapshot) -> (r: Result<(), SnapshotError>)
        requires
            old(self).wf(),
        ensures
            final(self).wf(),
            r is Ok <==> snap.is_valid(),
            r is Ok ==> final(self)@ == snap@,
            r is Err ==> final(self)@ == old(self)@,
            r == Err::<(), SnapshotError>(SnapshotError::DuplicateKey) <==> !snap.keys_distinct(),
            r == Err::<(), SnapshotError>(SnapshotError::DuplicateClient) <==> snap.keys_distinct()
                && !snap.clients_distinct(),
    {
        if !keys_distinct(&snap.entries) {
            return Err(SnapshotError::DuplicateKey);
        }
        if !clients_distinct(&snap.sessions) {
            return Err(SnapshotError::DuplicateClient);
        }
        if !revisions_in_range(&snap) {
            return Err(SnapshotError::RevisionOutOfRange);
        }
        proof {
            let p = entry_pairs(snap.entries@);
            assert forall|k: Seq<char>| #[trigger] snap@.data.contains_key(k) implies 1 <= snap@.data[k].revision
                <= revision_bound(snap@.applied) by {
                lemma_pairs_member(p, k);
                let i = choose|i: int| 0 <= i < p.len() && p[i].0 == k && pairs_to_map(p)[k] == p[i].1;
                assert(snap.entries@[i].revision == p[i].1.revision);
            }
        }
        self.entries = snap.entries;
        self.sessions = snap.sessions;
        self.last_applied = snap.last_applied;
        Ok(())
    }
}

} // verus!
