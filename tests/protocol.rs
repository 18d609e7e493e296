use distacean::distkv::DistKV;
use distacean::frame::{decode_frame, encode_frame, Frame, FrameError, FrameKind};
use distacean::kv::{KVOperation, KVResponse, RequestOperation, Response, ResponseResult, SetResponse};
use distacean::node::{
    leader_response, linearizer_ready, linearizer_token, plan_read, rpc_outcome, LeaderResponse,
    ReadPlan, ReadSource, RpcFailure,
};
use distacean::operator_read::{ReadConsistency, ReadRequestBuilder};
use distacean::operator_set::{set_result, SetError, SetRequestBuilder};
use distacean::peer::{port_of_addr, ConnectStep, Inbound, PendingTable, TcpStreamStarter};
use distacean::protocol::{LogId, ReadPolicy};

#[test]
fn frame_bytes_are_exact() {
    let f = Frame { kind: FrameKind::Request, correlation_id: 0x0102030405060708, payload: vec![0xAB, 0xCD] };
    let b = encode_frame(&f);
    assert_eq!(b, vec![0, 0, 0, 11, 1, 1, 2, 3, 4, 5, 6, 7, 8, 0xAB, 0xCD]);
}

#[test]
fn frame_round_trip_with_trailing_bytes() {
    let f = Frame { kind: FrameKind::Response, correlation_id: 77, payload: vec![5; 300] };
    let mut b = encode_frame(&f);
    let n = b.len();
    b.extend_from_slice(&[9, 9, 9]);
    let (g, used) = decode_frame(&b).unwrap();
    assert_eq!(g, f);
    assert_eq!(used, n);
    assert_eq!(n, 13 + 300);
}

#[test]
fn frame_with_empty_payload() {
    let f = Frame { kind: FrameKind::Request, correlation_id: u64::MAX, payload: vec![] };
    let b = encode_frame(&f);
    assert_eq!(b.len(), 13);
    assert_eq!(decode_frame(&b), Ok((f, 13)));
}

#[test]
fn frame_decode_errors() {
    assert_eq!(decode_frame(&[0, 0, 0]), Err(FrameError::Incomplete));
    assert_eq!(decode_frame(&[0, 0, 0, 8, 1, 0, 0, 0, 0, 0, 0, 0]), Err(FrameError::LengthTooShort));
    assert_eq!(decode_frame(&[0, 0, 0, 10, 1, 0, 0, 0, 0, 0, 0, 0, 0]), Err(FrameError::Incomplete));
    assert_eq!(decode_frame(&[0, 0, 0, 9, 3, 0, 0, 0, 0, 0, 0, 0, 0]), Err(FrameError::UnknownKind(3)));
}

#[test]
fn pending_table_correlates_responses() {
    let mut t = PendingTable::new();
    let a = t.register().unwrap();
    let b = t.register().unwrap();
    assert_ne!(a, b);
    assert!(t.is_waiting(a) && t.is_waiting(b));
    let resp = Frame { kind: FrameKind::Response, correlation_id: b, payload: vec![1] };
    assert_eq!(t.dispatch(resp.clone()), Inbound::Deliver { correlation_id: b, payload: vec![1] });
    // a late duplicate is dropped
    assert_eq!(t.dispatch(resp), Inbound::Discard { correlation_id: b });
    let req = Frame { kind: FrameKind::Request, correlation_id: 5, payload: vec![2] };
    assert_eq!(t.dispatch(req), Inbound::Serve { correlation_id: 5, payload: vec![2] });
    assert!(t.is_waiting(a));
    assert!(t.complete(a));
    assert!(!t.complete(a));
}

#[test]
fn pending_table_reset_fails_all_outstanding() {
    let mut t = PendingTable::new();
    let a = t.register().unwrap();
    let b = t.register().unwrap();
    let mut failed = t.reset();
    failed.sort();
    assert_eq!(failed, vec![a, b]);
    assert!(!t.is_waiting(a));
    let c = t.register().unwrap();
    assert!(c != a && c != b);
}

#[test]
fn connect_retries_at_fixed_pace() {
    let s = TcpStreamStarter::new();
    assert_eq!(s.after_attempt(false), ConnectStep::RetryAfter { secs: 5 });
    assert_eq!(s.after_attempt(true), ConnectStep::Ready { nodelay: true });
}

#[test]
fn write_routing() {
    assert_eq!(leader_response(1, Some(1)), LeaderResponse::NodeIsLeader);
    assert_eq!(leader_response(2, Some(1)), LeaderResponse::NodeIsFollower(1));
    assert_eq!(leader_response(2, None), LeaderResponse::NoLeader);
}

#[test]
fn follower_linearizable_read() {
    // three nodes, leader N1; the read is issued on N2
    let req = ReadRequestBuilder::new("a".to_string()).linearizable().leader().build();
    assert_eq!(req.plan(2, Some(1)), ReadPlan::AskLeader { leader: 1, policy: ReadPolicy::ReadIndex });
    let read_at = LogId { term: 1, node_id: 1, index: 10 };
    let token = linearizer_token(1, read_at, Some(read_at));
    // N2 lags behind the read position: it must wait
    assert!(!linearizer_ready(Some(LogId { term: 1, node_id: 1, index: 9 }), &token));
    assert!(!linearizer_ready(None, &token));
    assert!(linearizer_ready(Some(read_at), &token));
    assert!(linearizer_ready(Some(LogId { term: 2, node_id: 3, index: 12 }), &token));
}

#[test]
fn read_plans() {
    assert_eq!(plan_read(1, Some(1), ReadSource::Leader, ReadConsistency::Linearizable), ReadPlan::LocalLinearizer(ReadPolicy::ReadIndex));
    assert_eq!(plan_read(2, Some(1), ReadSource::Leader, ReadConsistency::LeaseRead), ReadPlan::AskLeader { leader: 1, policy: ReadPolicy::LeaseRead });
    assert_eq!(plan_read(2, None, ReadSource::Leader, ReadConsistency::Linearizable), ReadPlan::NoLeader);
    assert_eq!(plan_read(2, None, ReadSource::Local, ReadConsistency::Linearizable), ReadPlan::LocalLinearizer(ReadPolicy::ReadIndex));
    assert_eq!(plan_read(2, None, ReadSource::Leader, ReadConsistency::AsIs), ReadPlan::Stale);
}

#[test]
fn read_builder_defaults_and_options() {
    let d = ReadRequestBuilder::new("k".to_string()).build();
    assert_eq!(d.source, ReadSource::Leader);
    assert_eq!(d.consistency, ReadConsistency::Linearizable);
    let r = ReadRequestBuilder::new("k".to_string()).local().as_is().build();
    assert_eq!(r.source, ReadSource::Local);
    assert_eq!(r.consistency, ReadConsistency::AsIs);
    let r = ReadRequestBuilder::new("k".to_string()).leader_lease().build();
    assert_eq!(r.consistency, ReadConsistency::LeaseRead);
    assert_eq!(r.key, "k");
}

#[test]
fn set_builder_makes_set_or_cas() {
    let op = SetRequestBuilder::new("k".to_string(), vec![1]).build().operation();
    assert_eq!(op, KVOperation::Put { key: "k".to_string(), value: vec![1], return_previous: false });
    let op = SetRequestBuilder::new("k".to_string(), vec![1]).with_previous().expected_revision(4).build().operation();
    assert_eq!(op, KVOperation::Cas { key: "k".to_string(), expected_revision: 4, value: vec![1], return_previous: true });
}

#[test]
fn set_result_maps_replies() {
    let ok = Response::Result {
        client_id: 1,
        seq_id: None,
        res: ResponseResult::KV(KVResponse::Put(SetResponse { prev_value: None, revision: 3 })),
    };
    assert_eq!(set_result(ok), Ok(SetResponse { prev_value: None, revision: 3 }));
    let failed = Response::Result {
        client_id: 1,
        seq_id: None,
        res: ResponseResult::KV(KVResponse::Cas { success: false, response: SetResponse { prev_value: None, revision: 8 } }),
    };
    assert_eq!(set_result(failed), Err(SetError::RevisionMismatch { current_revision: 8 }));
    assert!(matches!(set_result(Response::Empty), Err(SetError::Other(_))));
    let del = Response::Result { client_id: 1, seq_id: None, res: ResponseResult::KV(KVResponse::Del { existed: true }) };
    assert!(matches!(set_result(del), Err(SetError::Other(_))));
}

#[test]
fn client_stamps_increasing_sequence_numbers() {
    let mut kv = DistKV::new(9);
    let a = kv.request(kv.delete("x".to_string())).unwrap();
    let b = kv.request(KVOperation::Del { key: "y".to_string() }).unwrap();
    assert_eq!(a.client_id, 9);
    assert_eq!(a.seq_id, Some(1));
    assert_eq!(b.seq_id, Some(2));
    assert_eq!(a.op, RequestOperation::KV(KVOperation::Del { key: "x".to_string() }));
    let s = kv.set("k".to_string(), vec![7]).build();
    assert_eq!(s.value, vec![7]);
    assert_eq!(kv.read("k".to_string()).build().key, "k");
}

#[test]
fn rpc_outcomes() {
    let ok: Result<Result<u8, String>, String> = Ok(Ok(1));
    assert_eq!(rpc_outcome(3, ok), Ok(1));
    let remote: Result<Result<u8, String>, String> = Ok(Err("refused".to_string()));
    assert_eq!(rpc_outcome(3, remote), Err(RpcFailure::Remote { target: 3, error: "refused".to_string() }));
    let down: Result<Result<u8, String>, String> = Err("reset".to_string());
    assert_eq!(rpc_outcome(3, down), Err(RpcFailure::Unreachable("reset".to_string())));
}

#[test]
fn port_of_peer_address() {
    assert_eq!(port_of_addr("127.0.0.1:8080"), Some(8080));
    assert_eq!(port_of_addr("[::1]:65535"), Some(65535));
    assert_eq!(port_of_addr("host:65536"), None);
    assert_eq!(port_of_addr("host:"), None);
    assert_eq!(port_of_addr("host:80a"), None);
    assert_eq!(port_of_addr("9000"), Some(9000));
    assert_eq!(port_of_addr("a:b:+22"), Some(22));
    assert_eq!(port_of_addr("a:+"), None);
    assert_eq!(port_of_addr("a:00000000000000000021"), Some(21));
}
