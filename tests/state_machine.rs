use distacean::kv::{KVOperation, KVResponse, Request, RequestOperation, Response, ResponseResult, SetResponse};
use distacean::operator_set::{set_result, SetError};
use distacean::distkv::delete_result;
use distacean::node::{linearizer_token, ReadPlan};
use distacean::operator_read::{ReadRequestBuilder, ReadStep};
use distacean::protocol::ReadPolicy;
use distacean::DistKV;
use distacean::protocol::LogId;
use distacean::snapshot::{Snapshot, SnapshotError};
use distacean::state_machine::{Entry, EntryPayload, KvEntry, SessionRecord, StateMachine};

struct Node {
    sm: StateMachine,
    index: u64,
    seq: u64,
}

impl Node {
    fn new() -> Node {
        Node { sm: StateMachine::new(), index: 0, seq: 0 }
    }

    fn log_id(&mut self) -> LogId {
        self.index += 1;
        LogId { term: 1, node_id: 1, index: self.index }
    }

    fn apply_with(&mut self, client_id: u64, seq_id: Option<u64>, op: KVOperation) -> Response {
        let log_id = self.log_id();
        let req = Request { client_id, seq_id, op: RequestOperation::KV(op) };
        self.sm.apply(Entry { log_id, payload: EntryPayload::Normal(req) })
    }

    fn apply(&mut self, op: KVOperation) -> Response {
        self.seq += 1;
        let seq = self.seq;
        self.apply_with(7, Some(seq), op)
    }

    fn set(&mut self, key: &str, value: Vec<u8>, return_previous: bool) -> Result<SetResponse, SetError> {
        set_result(self.apply(KVOperation::Put { key: key.to_string(), value, return_previous }))
    }

    fn cas(&mut self, key: &str, expected_revision: u64, value: Vec<u8>) -> Result<SetResponse, SetError> {
        set_result(self.apply(KVOperation::Cas {
            key: key.to_string(),
            expected_revision,
            value,
            return_previous: false,
        }))
    }

    fn delete(&mut self, key: &str) -> Option<bool> {
        let r = self.apply(KVOperation::Del { key: key.to_string() });
        delete_result(&r)
    }

    fn read(&self, key: &str) -> Option<Vec<u8>> {
        self.sm.get(&key.to_string())
    }
}

#[test]
fn unconditional_set_then_read() {
    let mut n = Node::new();
    let r = n.set("a", vec![0x01], false).unwrap();
    assert_eq!(r, SetResponse { prev_value: None, revision: 1 });
    assert_eq!(n.read("a"), Some(vec![0x01]));
    assert_eq!(n.sm.get_with_revision(&"a".to_string()), Some((vec![0x01], 1)));
}

#[test]
fn overwrite_with_previous() {
    let mut n = Node::new();
    n.set("a", vec![0x01], false).unwrap();
    let r = n.set("a", vec![0x02], true).unwrap();
    assert_eq!(r, SetResponse { prev_value: Some(vec![0x01]), revision: 2 });
}

#[test]
fn overwrite_without_previous_hides_it() {
    let mut n = Node::new();
    n.set("a", vec![0x01], false).unwrap();
    let r = n.set("a", vec![0x01], false).unwrap();
    assert_eq!(r, SetResponse { prev_value: None, revision: 2 });
}

#[test]
fn successful_cas() {
    let mut n = Node::new();
    assert_eq!(n.set("b", vec![0xAA], false).unwrap().revision, 1);
    let r = n.cas("b", 1, vec![0xBB]).unwrap();
    assert_eq!(r.revision, 2);
}

#[test]
fn failing_cas() {
    let mut n = Node::new();
    n.set("b", vec![0xAA], false).unwrap();
    n.cas("b", 1, vec![0xBB]).unwrap();
    let r = n.cas("b", 1, vec![0xCC]);
    assert_eq!(r, Err(SetError::RevisionMismatch { current_revision: 2 }));
    assert_eq!(n.read("b"), Some(vec![0xBB]));
    assert_eq!(n.sm.get_with_revision(&"b".to_string()), Some((vec![0xBB], 2)));
}

#[test]
fn delete_semantics() {
    let mut n = Node::new();
    n.set("b", vec![0xAA], false).unwrap();
    n.cas("b", 1, vec![0xBB]).unwrap();
    assert_eq!(n.delete("b"), Some(true));
    assert_eq!(n.read("b"), None);
    assert_eq!(n.sm.get_with_revision(&"b".to_string()), None);
    let r = n.cas("b", 0, vec![0xDD]).unwrap();
    assert!(r.revision >= 3);
    assert_eq!(r.revision, 3);
    assert_eq!(n.read("b"), Some(vec![0xDD]));
}

#[test]
fn delete_of_absent_key() {
    let mut n = Node::new();
    assert_eq!(n.delete("nothing"), Some(false));
    assert_eq!(n.delete("nothing"), Some(false));
}

#[test]
fn cas_zero_on_absent_and_present_key() {
    let mut n = Node::new();
    assert_eq!(n.cas("c", 0, vec![1]).unwrap().revision, 1);
    assert_eq!(n.cas("c", 0, vec![2]), Err(SetError::RevisionMismatch { current_revision: 1 }));
    assert_eq!(n.read("c"), Some(vec![1]));
}

#[test]
fn failed_cas_does_not_advance_revision() {
    let mut n = Node::new();
    n.set("k", vec![1], false).unwrap();
    assert!(n.cas("k", 5, vec![2]).is_err());
    assert!(n.cas("k", 6, vec![2]).is_err());
    assert_eq!(n.set("k", vec![3], false).unwrap().revision, 2);
}

#[test]
fn revisions_strictly_increase_per_key() {
    let mut n = Node::new();
    let mut last = 0;
    for i in 0..10u8 {
        let r = n.set("m", vec![i], false).unwrap();
        assert_eq!(r.revision, last + 1);
        last = r.revision;
        // another key does not disturb this one
        n.set("other", vec![i], false).unwrap();
    }
    assert_eq!(n.delete("m"), Some(true));
    assert_eq!(n.set("m", vec![0], false).unwrap().revision, last + 1);
}

#[test]
fn duplicate_request_is_applied_once() {
    let mut n = Node::new();
    let op = KVOperation::Put { key: "x".to_string(), value: vec![9], return_previous: true };
    let first = n.apply_with(3, Some(11), op.clone());
    let second = n.apply_with(3, Some(11), op.clone());
    let third = n.apply_with(3, Some(11), op);
    assert_eq!(first, second);
    assert_eq!(first, third);
    assert_eq!(n.sm.get_with_revision(&"x".to_string()), Some((vec![9], 1)));
    // the next sequence number is a new write
    let fourth = n.apply_with(3, Some(12), KVOperation::Put { key: "x".to_string(), value: vec![8], return_previous: false });
    assert_eq!(set_result(fourth).unwrap().revision, 2);
}

#[test]
fn request_without_seq_id_is_not_deduplicated() {
    let mut n = Node::new();
    let op = KVOperation::Put { key: "y".to_string(), value: vec![1], return_previous: false };
    n.apply_with(4, None, op.clone());
    let r = n.apply_with(4, None, op);
    assert_eq!(set_result(r).unwrap().revision, 2);
}

#[test]
fn duplicate_cas_returns_recorded_reply() {
    let mut n = Node::new();
    n.set("z", vec![1], false).unwrap();
    let op = KVOperation::Cas { key: "z".to_string(), expected_revision: 1, value: vec![2], return_previous: true };
    let a = n.apply_with(5, Some(1), op.clone());
    let b = n.apply_with(5, Some(1), op);
    assert_eq!(a, b);
    assert_eq!(set_result(b).unwrap(), SetResponse { prev_value: Some(vec![1]), revision: 2 });
}

#[test]
fn blank_entry_advances_applied() {
    let mut n = Node::new();
    assert_eq!(n.sm.last_applied(), None);
    let log_id = n.log_id();
    let r = n.sm.apply(Entry { log_id, payload: EntryPayload::Blank });
    assert_eq!(r, Response::Empty);
    assert_eq!(n.sm.last_applied(), Some(log_id));
}

#[test]
fn response_envelope_carries_client_and_seq() {
    let mut n = Node::new();
    let r = n.apply_with(42, Some(9), KVOperation::Del { key: "q".to_string() });
    assert_eq!(
        r,
        Response::Result {
            client_id: 42,
            seq_id: Some(9),
            res: ResponseResult::KV(KVResponse::Del { existed: false }),
        }
    );
}

#[test]
fn snapshot_then_tail_equals_full_replay() {
    let mut full = Node::new();
    full.set("a", vec![1], false).unwrap();
    full.set("b", vec![2], false).unwrap();
    let snap = full.sm.snapshot();
    let mut restored = Node::new();
    restored.sm.install_snapshot(snap).unwrap();
    restored.index = full.index;
    restored.seq = full.seq;
    for node in [&mut full, &mut restored] {
        node.set("a", vec![3], true).unwrap();
        node.delete("b");
        node.cas("c", 0, vec![4]).unwrap();
    }
    assert_eq!(full.sm.snapshot(), restored.sm.snapshot());
    assert_eq!(restored.sm.get_with_revision(&"a".to_string()), Some((vec![3], 2)));
    assert_eq!(restored.read("b"), None);
    assert_eq!(restored.sm.last_applied(), full.sm.last_applied());
}

fn entry(key: &str, revision: u64) -> KvEntry {
    KvEntry { key: key.to_string(), value: Some(vec![1]), revision }
}

#[test]
fn invalid_snapshots_are_refused() {
    let applied = Some(LogId { term: 1, node_id: 1, index: 5 });
    let mut sm = StateMachine::new();
    let dup = Snapshot { entries: vec![entry("a", 1), entry("a", 2)], sessions: vec![], last_applied: applied };
    assert_eq!(sm.install_snapshot(dup), Err(SnapshotError::DuplicateKey));
    let zero = Snapshot { entries: vec![entry("a", 0)], sessions: vec![], last_applied: applied };
    assert_eq!(sm.install_snapshot(zero), Err(SnapshotError::RevisionOutOfRange));
    let ahead = Snapshot { entries: vec![entry("a", 7)], sessions: vec![], last_applied: applied };
    assert_eq!(sm.install_snapshot(ahead), Err(SnapshotError::RevisionOutOfRange));
    assert_eq!(sm.last_applied(), None);
    let ok = Snapshot { entries: vec![entry("a", 6)], sessions: vec![], last_applied: applied };
    assert_eq!(sm.install_snapshot(ok), Ok(()));
    assert_eq!(sm.get_with_revision(&"a".to_string()), Some((vec![1], 6)));
}

#[test]
fn snapshot_with_duplicate_client_is_refused() {
    let mut sm = StateMachine::new();
    let rec = SessionRecord { client_id: 1, seq_id: 1, response: Response::Empty };
    let snap = Snapshot { entries: vec![], sessions: vec![rec.clone(), rec], last_applied: None };
    assert_eq!(sm.install_snapshot(snap), Err(SnapshotError::DuplicateClient));
}

#[test]
fn client_reads_of_local_state() {
    let kv = DistKV::new(7);
    let mut n = Node::new();
    n.set("a", vec![5], false).unwrap();
    n.set("empty", vec![], false).unwrap();
    assert_eq!(kv.eventual_read(&n.sm, &"a".to_string()), Some(vec![5]));
    assert_eq!(kv.get_with_revision(&n.sm, &"a".to_string()), Some((vec![5], 1)));
    assert_eq!(kv.eventual_read(&n.sm, &"empty".to_string()), None);
    assert_eq!(kv.get_with_revision(&n.sm, &"empty".to_string()), None);
    assert_eq!(kv.eventual_read(&n.sm, &"missing".to_string()), None);
}

#[test]
fn follower_linearizable_read_waits_for_apply() {
    // leader N1 has applied the write; follower N2 lags behind
    let mut leader = Node::new();
    let mut follower = Node::new();
    let write = KVOperation::Put { key: "a".to_string(), value: vec![0x01], return_previous: false };
    leader.apply_with(1, Some(1), write.clone());
    let req = ReadRequestBuilder::new("a".to_string()).linearizable().leader().build();
    assert_eq!(req.plan(2, Some(1)), ReadPlan::AskLeader { leader: 1, policy: ReadPolicy::ReadIndex });
    let read_log_id = leader.sm.last_applied().unwrap();
    let token = linearizer_token(1, read_log_id, leader.sm.last_applied());
    assert_eq!(req.step(&follower.sm, Some(token)), ReadStep::Wait);
    follower.apply_with(1, Some(1), write);
    assert_eq!(req.step(&follower.sm, Some(token)), ReadStep::Value(Some(vec![0x01])));
    // a stale read does not wait
    let stale = ReadRequestBuilder::new("a".to_string()).as_is().build();
    assert_eq!(stale.step(&Node::new().sm, None), ReadStep::Value(None));
}
