//! The bookkeeping of one peer connection: correlation ids handed to
//! outgoing requests, the table of requests that await their response, and
//! where each inbound frame goes.
use vstd::prelude::*;

use crate::frame::{Frame, FrameKind};
use vstd::string::StringSliceAdditionalSpecFns;

verus! {

/// Seconds to wait between two attempts to reach a peer.
pub const RECONNECT_DELAY_SECS: u64 = 5;

/// The policy for opening a peer stream: retry at a fixed pace until it
/// connects, and turn Nagle's algorithm off on the stream.
#[derive(Clone, Debug, PartialEq, Eq)]
pub struct TcpStreamStarter {
    pub retry_delay_secs: u64,
    pub nodelay: bool,
}

/// What to do after one attempt to connect.
#[derive(Clone, Copy, Debug, PartialEq, Eq, Structural)]
pub enum ConnectStep {
    /// Use the stream, with `TCP_NODELAY` set as given.
    Ready { nodelay: bool },
    /// Wait that many seconds, then try again.
    RetryAfter { secs: u64 },
}

impl TcpStreamStarter {
    pub fn new() -> (r: TcpStreamStarter)
        ensures
            r.retry_delay_secs == RECONNECT_DELAY_SECS,
            r.nodelay,
    {
        TcpStreamStarter { retry_delay_secs: RECONNECT_DELAY_SECS, nodelay: true }
    }

    pub fn after_attempt(&self, connected: bool) -> (r: ConnectStep)
        ensures
            connected ==> r == (ConnectStep::Ready { nodelay: self.nodelay }),
            !connected ==> r == (ConnectStep::RetryAfter { secs: self.retry_delay_secs }),
    {
        if connected {
            ConnectStep::Ready { nodelay: self.nodelay }
        } else {
            ConnectStep::RetryAfter { secs: self.retry_delay_secs }
        }
    }
}

/// Where an inbound frame goes.
#[derive(Clone, Debug, PartialEq, Eq)]
pub enum Inbound {
    /// A request of the peer: hand it to the local handler, and answer
    /// with the same correlation id.
    Serve { correlation_id: u64, payload: Vec<u8> },
    /// The response to a request of ours that still waits.
    Deliver { correlation_id: u64, payload: Vec<u8> },
    /// A response nobody waits for any more: drop it.
    Discard { correlation_id: u64 },
}

/// Requests that await their response, by correlation id.
#[derive(Clone, Debug, PartialEq, Eq)]
pub struct PendingTable {
    next_id: u64,
    pending: Vec<u64>,
}

impl PendingTable {
    /// The correlation ids that await a response.
    pub closed spec fn waiting(&self) -> Set<u64> {
        self.pending@.to_set()
    }

    /// The id the next request gets.
    pub closed spec fn next_id(&self) -> u64 {
        self.next_id
    }

    /// Invariant: ids wait once each, and every one was handed out before.
    pub closed spec fn wf(&self) -> bool {
        &&& self.pending@.no_duplicates()
        &&& forall|i: int| 0 <= i < self.pending.len() ==> #[trigger] self.pending@[i] < self.next_id
    }

    pub fn new() -> (r: PendingTable)
        ensures
            r.wf(),
            r.waiting() == Set::<u64>::empty(),
            r.next_id() == 0,
    {
        let r = PendingTable { next_id: 0, pending: Vec::new() };
        assert(r.pending@.to_set() =~= Set::<u64>::empty());
        r
    }

    pub fn is_waiting(&self, id: u64) -> (r: bool)
        ensures
            r == self.waiting().contains(id),
    {
        let mut i: usize = 0;
        while i < self.pending.len()
            invariant
                i <= self.pending.len(),
                forall|j: int| 0 <= j < i ==> self.pending@[j] != id,
            decreases self.pending.len() - i,
        {
            if self.pending[i] == id {
                assert(self.pending@.contains(id));
                return true;
            }
            i = i + 1;
        }
        false
    }

    /// Gives a new request a correlation id that no waiting request has,
    /// and records it as waiting; `None` once every id has been used.
    pub fn register(&mut self) -> (r: Option<u64>)
        requires
            old(self).wf(),
        ensures
            final(self).wf(),
            old(self).next_id() == u64::MAX <==> r is None,
            r is None ==> *final(self) == *old(self),
            r matches Some(id) ==> id == old(self).next_id() && !old(self).waiting().contains(id)
                && final(self).waiting() == old(self).waiting().insert(id) && final(self).next_id() == id + 1,
    {
        if self.next_id == u64::MAX {
            return None;
        }
        let id = self.next_id;
        let ghost old_pending = self.pending@;
        self.pending.push(id);
        self.next_id = id + 1;
        proof {
            assert(self.pending@ == old_pending.push(id));
            assert(!old_pending.contains(id));
            assert forall|x: u64| self.pending@.contains(x) <==> old_pending.contains(x) || x == id by {
                vstd::seq_lib::lemma_seq_contains_after_push(old_pending, id, x);
            }
            assert(self.pending@.to_set() =~= old_pending.to_set().insert(id));
        }
        Some(id)
    }

    /// Removes `id` from the waiting requests, when its response comes or
    /// its caller gives up; says whether it was waiting.
    pub fn complete(&mut self, id: u64) -> (r: bool)
        requires
            old(self).wf(),
        ensures
            final(self).wf(),
            r == old(self).waiting().contains(id),
            final(self).waiting() == old(self).waiting().remove(id),
            final(self).next_id() == old(self).next_id(),
    {
        let ghost old_pending = self.pending@;
        let mut i: usize = 0;
        while i < self.pending.len()
            invariant
                i <= self.pending.len(),
                self.pending@ == old_pending,
                old_pending == old(self).pending@,
                self.next_id == old(self).next_id,
                self.wf(),
                forall|j: int| 0 <= j < i ==> self.pending@[j] != id,
            decreases self.pending.len() - i,
        {
            if self.pending[i] == id {
                self.pending.remove(i);
                proof {
                    let np = old_pending.remove(i as int);
                    assert(old_pending.contains(id));
                    assert forall|x: u64| np.contains(x) <==> old_pending.contains(x) && x != id by {
                        if np.contains(x) {
                            let k = choose|k: int| 0 <= k < np.len() && np[k] == x;
                            if k < i {
                                assert(old_pending[k] == x);
                            } else {
                                assert(old_pending[k + 1] == x);
                                assert(k + 1 != i);
                            }
                        }
                        if old_pending.contains(x) && x != id {
                            let k = choose|k: int| 0 <= k < old_pending.len() && old_pending[k] == x;
                            if k < i {
                                assert(np[k] == x);
                            } else {
                                assert(np[k - 1] == x);
                            }
                        }
                    }
                    assert(old(self).pending@ == old_pending);
                    assert(old(self).waiting().contains(id));
                    assert(self.pending@.to_set() =~= old_pending.to_set().remove(id));
                    assert forall|a: int| 0 <= a < self.pending.len() implies #[trigger] self.pending@[a] < self.next_id by {
                        if a < i {
                            assert(self.pending@[a] == old_pending[a]);
                        } else {
                            assert(self.pending@[a] == old_pending[a + 1]);
                        }
                    }
                }
                return true;
            }
            i = i + 1;
        }
        assert(!old_pending.contains(id));
        assert(self.pending@.to_set() =~= old_pending.to_set().remove(id));
        false
    }

    /// The connection was lost: every waiting request fails. Returns their
    /// ids and empties the table; ids are not handed out again.
    pub fn reset(&mut self) -> (r: Vec<u64>)
        requires
            old(self).wf(),
        ensures
            final(self).wf(),
            r@.to_set() == old(self).waiting(),
            final(self).waiting() == Set::<u64>::empty(),
            final(self).next_id() == old(self).next_id(),
    {
        let r = self.pending.clone();
        assert(r@ =~= self.pending@);
        self.pending = Vec::new();
        assert(self.pending@.to_set() =~= Set::<u64>::empty());
        r
    }

    /// Where an inbound frame goes. A response that is delivered stops
    /// waiting.
    pub fn dispatch(&mut self, frame: Frame) -> (r: Inbound)
        requires
            old(self).wf(),
        ensures
            final(self).wf(),
            final(self).next_id() == old(self).next_id(),
            match frame.kind {
                FrameKind::Request => r == (Inbound::Serve {
                    correlation_id: frame.correlation_id,
                    payload: frame.payload,
                }) && *final(self) == *old(self),
                FrameKind::Response => final(self).waiting() == old(self).waiting().remove(frame.correlation_id)
                    && if old(self).waiting().contains(frame.correlation_id) {
                    r == (Inbound::Deliver { correlation_id: frame.correlation_id, payload: frame.payload })
                } else {
                    r == (Inbound::Discard { correlation_id: frame.correlation_id })
                },
            },
    {
        match frame.kind {
            FrameKind::Request => Inbound::Serve { correlation_id: frame.correlation_id, payload: frame.payload },
            FrameKind::Response => {
                if self.complete(frame.correlation_id) {
                    Inbound::Deliver { correlation_id: frame.correlation_id, payload: frame.payload }
                } else {
                    Inbound::Discard { correlation_id: frame.correlation_id }
                }
            },
        }
    }
}

/// The value of a run of decimal digits.
pub open spec fn digits_value(s: Seq<u8>) -> int
    decreases s.len(),
{
    if s.len() == 0 {
        0
    } else {
        digits_value(s.drop_last()) * 10 + (s.last() - 48)
    }
}

pub open spec fn all_digits(s: Seq<u8>) -> bool {
    forall|i: int| 0 <= i < s.len() ==> 48 <= #[trigger] s[i] <= 57
}

/// Where the text after the last `:` starts; 0 when there is none.
pub open spec fn port_start(s: Seq<u8>) -> int
    decreases s.len(),
{
    if s.len() == 0 {
        0
    } else if s.last() == 58 {
        s.len() as int
    } else {
        port_start(s.drop_last())
    }
}

/// The port of a `host:port` address: the text after the last `:` (the
/// whole text if there is none), as a `u16` in decimal with an optional
/// leading `+`.
pub open spec fn addr_port(s: Seq<u8>) -> Option<u16> {
    let t = s.subrange(port_start(s), s.len() as int);
    let d = if t.len() > 0 && t[0] == 43 {
        t.drop_first()
    } else {
        t
    };
    if d.len() > 0 && all_digits(d) && digits_value(d) <= 65535 {
        Some(digits_value(d) as u16)
    } else {
        None
    }
}

proof fn lemma_port_start(s: Seq<u8>)
    ensures
        0 <= port_start(s) <= s.len(),
        port_start(s) > 0 ==> s[port_start(s) - 1] == 58,
        forall|i: int| port_start(s) <= i < s.len() ==> s[i] != 58,
    decreases s.len(),
{
    if s.len() > 0 && s.last() != 58 {
        let t = s.drop_last();
        lemma_port_start(t);
        assert forall|i: int| port_start(s) <= i < s.len() implies s[i] != 58 by {
            if i < t.len() {
                assert(s[i] == t[i]);
            }
        }
    }
}

proof fn lemma_digits_prefix(s: Seq<u8>, i: int)
    requires
        all_digits(s),
        0 <= i <= s.len(),
    ensures
        0 <= digits_value(s.subrange(0, i)) <= digits_value(s),
    decreases s.len() - i,
{
    if i < s.len() {
        lemma_digits_prefix(s, i + 1);
        assert(s.subrange(0, i + 1).drop_last() =~= s.subrange(0, i));
    } else {
        assert(s.subrange(0, i) =~= s);
        lemma_digits_nonneg(s);
    }
}

proof fn lemma_digits_nonneg(s: Seq<u8>)
    requires
        all_digits(s),
    ensures
        digits_value(s) >= 0,
    decreases s.len(),
{
    if s.len() > 0 {
        lemma_digits_nonneg(s.drop_last());
    }
}

/// The port of a `host:port` address; `None` when it is not a `u16`.
pub fn port_of_addr(addr: &str) -> (r: Option<u16>)
    ensures
        r == addr_port(addr.spec_bytes()),
{
    let b = addr.as_bytes();
    let ghost s = b@;
    let mut start: usize = b.len();
    while start > 0 && b[start - 1] != 58
        invariant
            start <= b.len(),
            s == b@,
            forall|i: int| start <= i < b.len() ==> s[i] != 58,
        decreases start,
    {
        start = start - 1;
    }
    proof {
        lemma_port_start(s);
        let p = port_start(s);
        if start > 0 {
            assert(s[start - 1] == 58);
            assert(p >= start) by {
                if p < start {
                    assert(s[start - 1] != 58);
                }
            }
            assert(p <= start) by {
                if p > start {
                    assert(s[p - 1] == 58);
                }
            }
        } else {
            assert(p == 0) by {
                if p > 0 {
                    assert(s[p - 1] == 58);
                }
            }
        }
    }
    let ghost t = s.subrange(start as int, s.len() as int);
    let mut i: usize = start;
    if i < b.len() && b[i] == 43 {
        i = i + 1;
    }
    let ghost d = s.subrange(i as int, s.len() as int);
    assert(d =~= if t.len() > 0 && t[0] == 43 { t.drop_first() } else { t });
    if i == b.len() {
        return None;
    }
    let first = i;
    let mut value: u32 = 0;
    assert(addr_port(s) == if all_digits(d) && digits_value(d) <= 65535 {
        Some(digits_value(d) as u16)
    } else {
        None
    });
    while i < b.len()
        invariant
            first <= i <= b.len(),
            s == b@,
            s == addr.spec_bytes(),
            addr_port(s) == if all_digits(d) && digits_value(d) <= 65535 {
                Some(digits_value(d) as u16)
            } else {
                None
            },
            d == s.subrange(first as int, s.len() as int),
            all_digits(d.subrange(0, i - first)),
            value as int == digits_value(d.subrange(0, i - first)),
            value <= 65535,
        decreases b.len() - i,
    {
        let c = b[i];
        if c < 48 || c > 57 {
            assert(!all_digits(d)) by {
                assert(d[i - first] == c);
            }
            return None;
        }
        assert(d.subrange(0, i + 1 - first).drop_last() =~= d.subrange(0, i - first));
        let next = value * 10 + (c - 48) as u32;
        i = i + 1;
        if next > 65535 {
            proof {
                if all_digits(d) {
                    lemma_digits_prefix(d, i - first);
                }
            }
            return None;
        }
        value = next;
    }
    assert(d.subrange(0, i - first) =~= d);
    Some(value as u16)
}

} // verus!
