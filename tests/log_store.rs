use distacean::kv::{KVOperation, Request, RequestOperation};
use distacean::log_store::{key_index, log_key, LogError, LogStore, Vote};
use distacean::protocol::LogId;
use distacean::replica::apply_entries;
use distacean::state_machine::{Entry, EntryPayload, StateMachine};

fn id(index: u64) -> LogId {
    LogId { term: 1, node_id: 1, index }
}

fn blank(index: u64) -> Entry {
    Entry { log_id: id(index), payload: EntryPayload::Blank }
}

fn indices(v: &[Entry]) -> Vec<u64> {
    v.iter().map(|e| e.log_id.index).collect()
}

#[test]
fn append_and_read_range() {
    let mut log = LogStore::new();
    assert_eq!(log.next_index(), Some(0));
    assert_eq!(log.append(vec![blank(0), blank(1), blank(2)]), Ok(()));
    assert_eq!(log.next_index(), Some(3));
    assert_eq!(indices(&log.get_range(1, 3)), vec![1, 2]);
    assert_eq!(indices(&log.get_range(0, 100)), vec![0, 1, 2]);
    assert_eq!(indices(&log.get_range(2, 1)), Vec::<u64>::new());
    assert_eq!(log.get_log_state(), (None, Some(id(2))));
}

#[test]
fn append_keeps_payloads() {
    let mut log = LogStore::new();
    let req = Request {
        client_id: 1,
        seq_id: Some(1),
        op: RequestOperation::KV(KVOperation::Put { key: "a".to_string(), value: vec![1], return_previous: false }),
    };
    let e = Entry { log_id: id(0), payload: EntryPayload::Normal(req) };
    log.append(vec![e.clone()]).unwrap();
    assert_eq!(log.get_range(0, 1), vec![e]);
}

#[test]
fn append_refuses_a_gap_and_keeps_the_log() {
    let mut log = LogStore::new();
    log.append(vec![blank(0)]).unwrap();
    assert_eq!(log.append(vec![blank(1), blank(3)]), Err(LogError::NotContiguous));
    assert_eq!(log.append(vec![blank(2)]), Err(LogError::NotContiguous));
    assert_eq!(indices(&log.get_range(0, 10)), vec![0]);
}

#[test]
fn truncate_removes_from_index_on() {
    let mut log = LogStore::new();
    log.append(vec![blank(0), blank(1), blank(2), blank(3)]).unwrap();
    log.truncate(2);
    assert_eq!(indices(&log.get_range(0, 10)), vec![0, 1]);
    log.truncate(7);
    assert_eq!(indices(&log.get_range(0, 10)), vec![0, 1]);
    log.truncate(0);
    assert_eq!(log.get_log_state(), (None, None));
}

#[test]
fn purge_up_to_inclusive() {
    let mut log = LogStore::new();
    log.append(vec![blank(0), blank(1), blank(2), blank(3)]).unwrap();
    log.purge(id(1));
    assert_eq!(indices(&log.get_range(0, 10)), vec![2, 3]);
    assert_eq!(log.get_log_state(), (Some(id(1)), Some(id(3))));
    log.purge(id(3));
    assert_eq!(log.get_log_state(), (Some(id(3)), Some(id(3))));
    assert_eq!(log.next_index(), Some(4));
    assert_eq!(log.append(vec![blank(4)]), Ok(()));
}

#[test]
fn vote_and_committed_are_kept() {
    let mut log = LogStore::new();
    assert_eq!(log.read_vote(), None);
    let v = Vote { term: 3, node_id: 2, committed: true };
    log.save_vote(v);
    assert_eq!(log.read_vote(), Some(v));
    log.save_committed(Some(id(5)));
    assert_eq!(log.read_committed(), Some(id(5)));
}

#[test]
fn log_keys_are_big_endian_and_ordered() {
    assert_eq!(log_key(0x0102), vec![0, 0, 0, 0, 0, 0, 1, 2]);
    assert_eq!(key_index(&log_key(123456789)), Some(123456789));
    assert_eq!(key_index(&[1, 2, 3]), None);
    assert!(log_key(255) < log_key(256));
}

#[test]
fn purge_past_the_end_and_again() {
    let mut log = LogStore::new();
    log.append(vec![blank(0), blank(1)]).unwrap();
    log.purge(id(5));
    assert_eq!(log.get_log_state(), (Some(id(5)), Some(id(5))));
    assert_eq!(log.next_index(), Some(6));
    log.purge(id(2));
    assert_eq!(log.get_log_state(), (Some(id(5)), Some(id(5))));
    assert_eq!(log.append(vec![blank(6), blank(7)]), Ok(()));
    assert_eq!(indices(&log.get_range(0, 10)), vec![6, 7]);
}

#[test]
fn committed_entries_apply_in_log_order() {
    let put = |i: u64, seq: u64, v: u8| Entry {
        log_id: id(i),
        payload: EntryPayload::Normal(Request {
            client_id: 2,
            seq_id: Some(seq),
            op: RequestOperation::KV(KVOperation::Put { key: "k".to_string(), value: vec![v], return_previous: true }),
        }),
    };
    let mut log = LogStore::new();
    log.append(vec![blank(0), put(1, 1, 10), put(2, 2, 20), put(3, 2, 30)]).unwrap();
    let mut sm = StateMachine::new();
    let replies = apply_entries(&mut sm, &log.get_range(0, 4));
    assert_eq!(replies.len(), 4);
    // the last entry repeats sequence number 2: it gets the reply of the first
    assert_eq!(replies[3], replies[2]);
    assert_eq!(sm.get_with_revision(&"k".to_string()), Some((vec![20], 2)));
    assert_eq!(sm.last_applied(), Some(id(3)));
}
