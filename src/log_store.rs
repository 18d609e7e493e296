//! The replicated log as this node stores it: a contiguous run of entries
//! after the purged prefix, the vote, and the committed position.
use vstd::prelude::*;

use crate::frame::{be_u64_at, lemma_u64_round_trip, push_u64_be, u64_be};
use crate::protocol::LogId;
use crate::state_machine::{Entry, EntryPayload, EntryView};
use crate::NodeId;

verus! {

/// The vote this node has cast or holds.
#[derive(Clone, Copy, Debug, PartialEq, Eq, Structural)]
pub struct Vote {
    pub term: u64,
    pub node_id: NodeId,
    pub committed: bool,
}

#[derive(Clone, Copy, Debug, PartialEq, Eq, Structural)]
pub enum LogError {
    /// The entries do not continue the log: each must have the index after
    /// the one before it, starting right after the last stored entry.
    NotContiguous,
}

pub struct LogView {
    pub entries: Seq<EntryView>,
    pub last_purged: Option<LogId>,
    pub vote: Option<Vote>,
    pub committed: Option<LogId>,
}

/// Index of the first entry that can follow what was purged.
pub open spec fn first_index(last_purged: Option<LogId>) -> int {
    match last_purged {
        Some(p) => p.index + 1,
        None => 0,
    }
}

/// The entries hold consecutive indices, starting at `first`.
pub open spec fn contiguous_from(entries: Seq<EntryView>, first: int) -> bool {
    forall|i: int| 0 <= i < entries.len() ==> #[trigger] entries[i].log_id.index == first + i
}

/// How many leading entries have an index below `bound`.
pub open spec fn count_below(first: int, len: int, bound: int) -> int {
    if bound <= first {
        0
    } else if bound - first >= len {
        len
    } else {
        bound - first
    }
}

/// The last log position: of the last entry, or the purged one.
pub open spec fn last_log_id(v: LogView) -> Option<LogId> {
    if v.entries.len() > 0 {
        Some(v.entries.last().log_id)
    } else {
        v.last_purged
    }
}

pub(crate) fn copy_entry(e: &Entry) -> (r: Entry)
    ensures
        r@ == e@,
{
    let payload = match &e.payload {
        EntryPayload::Blank => EntryPayload::Blank,
        EntryPayload::Normal(req) => EntryPayload::Normal(req.copy()),
    };
    Entry { log_id: e.log_id, payload }
}

pub struct LogStore {
    entries: Vec<Entry>,
    last_purged: Option<LogId>,
    vote: Option<Vote>,
    committed: Option<LogId>,
}

pub open spec fn entry_views(entries: Seq<Entry>) -> Seq<EntryView> {
    entries.map_values(|e: Entry| e@)
}

impl View for LogStore {
    type V = LogView;

    closed spec fn view(&self) -> LogView {
        LogView {
            entries: entry_views(self.entries@),
            last_purged: self.last_purged,
            vote: self.vote,
            committed: self.committed,
        }
    }
}

impl LogStore {
    /// Invariant: the entries are contiguous after the purged position.
    pub closed spec fn wf(&self) -> bool {
        contiguous_from(self@.entries, first_index(self@.last_purged))
    }

    pub fn new() -> (r: LogStore)
        ensures
            r.wf(),
            r@.entries.len() == 0,
            r@.last_purged is None,
            r@.vote is None,
            r@.committed is None,
    {
        let r = LogStore { entries: Vec::new(), last_purged: None, vote: None, committed: None };
        assert(entry_views(r.entries@) =~= Seq::<EntryView>::empty());
        r
    }

    /// The index the next appended entry must have, or `None` when the log
    /// reaches the last index there is.
    pub fn next_index(&self) -> (r: Option<u64>)
        requires
            self.wf(),
        ensures
            first_index(self@.last_purged) + self@.entries.len() <= u64::MAX ==> r == Some(
                (first_index(self@.last_purged) + self@.entries.len()) as u64,
            ),
            first_index(self@.last_purged) + self@.entries.len() > u64::MAX ==> r is None,
    {
        let n = self.entries.len();
        if n > 0 {
            let last = self.entries[n - 1].log_id.index;
            assert(self@.entries[n - 1].log_id.index == last);
            if last == u64::MAX {
                None
            } else {
                Some(last + 1)
            }
        } else {
            match self.last_purged {
                Some(p) => if p.index == u64::MAX {
                    None
                } else {
                    Some(p.index + 1)
                },
                None => Some(0),
            }
        }
    }

    /// The purged position and the last log position.
    pub fn get_log_state(&self) -> (r: (Option<LogId>, Option<LogId>))
        ensures
            r == (self@.last_purged, last_log_id(self@)),
    {
        let n = self.entries.len();
        if n > 0 {
            (self.last_purged, Some(self.entries[n - 1].log_id))
        } else {
            (self.last_purged, self.last_purged)
        }
    }

    pub fn save_vote(&mut self, vote: Vote)
        ensures
            final(self)@ == (LogView { vote: Some(vote), ..old(self)@ }),
            final(self).wf() == old(self).wf(),
    {
        self.vote = Some(vote);
    }

    pub fn read_vote(&self) -> (r: Option<Vote>)
        ensures
            r == self@.vote,
    {
        self.vote
    }

    pub fn save_committed(&mut self, committed: Option<LogId>)
        ensures
            final(self)@ == (LogView { committed, ..old(self)@ }),
            final(self).wf() == old(self).wf(),
    {
        self.committed = committed;
    }

    pub fn read_committed(&self) -> (r: Option<LogId>)
        ensures
            r == self@.committed,
    {
        self.committed
    }

    /// Appends a batch of entries, all or none: they must continue the log.
    pub fn append(&mut self, entries: Vec<Entry>) -> (r: Result<(), LogError>)
        requires
            old(self).wf(),
        ensures
            final(self).wf(),
            r is Ok <==> contiguous_from(entry_views(entries@), first_index(old(self)@.last_purged) + old(self)@.entries.len()),
            r is Ok ==> final(self)@ == (LogView { entries: old(self)@.entries + entry_views(entries@), ..old(self)@ }),
            r is Err ==> final(self)@ == old(self)@,
    {
        let ghost first = first_index(self@.last_purged);
        let ghost start = first + self@.entries.len();
        let ghost new_views = entry_views(entries@);
        let next = self.next_index();
        let mut i: usize = 0;
        while i < entries.len()
            invariant
                i <= entries.len(),
                self.wf(),
                self@ == old(self)@,
                new_views == entry_views(entries@),
                start == first_index(self@.last_purged) + self@.entries.len(),
                next is Some ==> start <= u64::MAX && next == Some(start as u64),
                next is None ==> start > u64::MAX,
                forall|j: int| 0 <= j < i ==> #[trigger] new_views[j].log_id.index == start + j,
            decreases entries.len() - i,
        {
            let ok = match next {
                Some(n) => n as u64 <= u64::MAX - i as u64 && entries[i].log_id.index == n + i as u64,
                None => false,
            };
            assert(new_views[i as int] == entries@[i as int]@);
            if !ok {
                assert(new_views[i as int].log_id.index != start + i);
                return Err(LogError::NotContiguous);
            }
            i = i + 1;
        }
        let ghost old_views = self@.entries;
        let mut i: usize = 0;
        while i < entries.len()
            invariant
                i <= entries.len(),
                new_views == entry_views(entries@),
                entry_views(self.entries@) == old_views + new_views.subrange(0, i as int),
                self.last_purged == old(self).last_purged,
                self.vote == old(self).vote,
                self.committed == old(self).committed,
                old_views == old(self)@.entries,
            decreases entries.len() - i,
        {
            let e = copy_entry(&entries[i]);
            assert(new_views[i as int] == entries@[i as int]@);
            let ghost prev = self.entries@;
            self.entries.push(e);
            proof {
                assert(entry_views(prev.push(e)) =~= entry_views(prev).push(e@));
                assert((old_views + new_views.subrange(0, i as int)).push(new_views[i as int]) =~= old_views
                    + new_views.subrange(0, i + 1));
            }
            i = i + 1;
        }
        assert(new_views.subrange(0, i as int) =~= new_views);
        Ok(())
    }

    /// Removes every entry with an index of `from` or more.
    pub fn truncate(&mut self, from: u64)
        requires
            old(self).wf(),
        ensures
            final(self).wf(),
            final(self)@ == (LogView {
                entries: old(self)@.entries.subrange(
                    0,
                    count_below(first_index(old(self)@.last_purged), old(self)@.entries.len() as int, from as int),
                ),
                ..old(self)@
            }),
    {
        let ghost keep = count_below(first_index(self@.last_purged), self@.entries.len() as int, from as int);
        let ghost old_views = self@.entries;
        while self.entries.len() > 0 && self.entries[self.entries.len() - 1].log_id.index >= from
            invariant
                self.wf(),
                keep <= self.entries.len() <= old_views.len(),
                entry_views(self.entries@) == old_views.subrange(0, self.entries.len() as int),
                keep == count_below(first_index(self@.last_purged), old_views.len() as int, from as int),
                self.last_purged == old(self).last_purged,
                self.vote == old(self).vote,
                self.committed == old(self).committed,
                old_views == old(self)@.entries,
            decreases self.entries.len(),
        {
            let ghost n = self.entries.len();
            assert(self@.entries[n - 1].log_id.index == first_index(self@.last_purged) + n - 1);
            self.entries.pop();
            assert(entry_views(self.entries@) =~= old_views.subrange(0, self.entries.len() as int));
        }
        proof {
            let n = self.entries.len() as int;
            if n > 0 {
                assert(self@.entries[n - 1].log_id.index == first_index(self@.last_purged) + n - 1);
            }
            assert(n == keep);
            assert(self@.entries =~= old_views.subrange(0, keep));
        }
    }

    /// Removes every entry up to and including `upto`, which becomes the
    /// purged position; a position purged already changes nothing.
    pub fn purge(&mut self, upto: LogId)
        requires
            old(self).wf(),
        ensures
            final(self).wf(),
            upto.index + 1 <= first_index(old(self)@.last_purged) ==> final(self)@ == old(self)@,
            upto.index + 1 > first_index(old(self)@.last_purged) ==> final(self)@ == (LogView {
                entries: old(self)@.entries.subrange(
                    count_below(
                        first_index(old(self)@.last_purged),
                        old(self)@.entries.len() as int,
                        upto.index + 1,
                    ),
                    old(self)@.entries.len() as int,
                ),
                last_purged: Some(upto),
                ..old(self)@
            }),
    {
        if let Some(p) = self.last_purged {
            if upto.index <= p.index {
                return;
            }
        }
        let ghost first = first_index(self@.last_purged);
        let ghost old_views = self@.entries;
        let ghost drop = count_below(first, old_views.len() as int, upto.index + 1);
        let mut kept: Vec<Entry> = Vec::new();
        let mut i: usize = 0;
        while i < self.entries.len()
            invariant
                self.wf(),
                i <= self.entries.len(),
                first == first_index(self@.last_purged),
                first < upto.index + 1,
                old_views == self@.entries,
                drop == count_below(first, old_views.len() as int, upto.index + 1),
                0 <= drop <= old_views.len(),
                i <= drop ==> kept@.len() == 0,
                i > drop ==> entry_views(kept@) == old_views.subrange(drop, i as int),
            decreases self.entries.len() - i,
        {
            assert(self@.entries[i as int].log_id.index == first + i);
            if self.entries[i].log_id.index > upto.index {
                let e = copy_entry(&self.entries[i]);
                assert(old_views[i as int] == self.entries@[i as int]@);
                let ghost prev = kept@;
                kept.push(e);
                proof {
                    assert(entry_views(prev.push(e)) =~= entry_views(prev).push(e@));
                    if i == drop {
                        assert(entry_views(kept@) =~= old_views.subrange(drop, i + 1));
                    } else {
                        assert(old_views.subrange(drop, i as int).push(old_views[i as int]) =~= old_views.subrange(
                            drop,
                            i + 1,
                        ));
                    }
                }
            } else {
                assert(kept@.len() == 0);
            }
            i = i + 1;
        }
        proof {
            if i <= drop {
                assert(entry_views(kept@) =~= old_views.subrange(drop, i as int));
            }
        }
        self.entries = kept;
        self.last_purged = Some(upto);
        assert forall|j: int| 0 <= j < self@.entries.len() implies #[trigger] self@.entries[j].log_id.index
            == first_index(self@.last_purged) + j by {
            assert(self@.entries[j] == old_views[drop + j]);
        }
    }

    /// The stored entries whose index lies in `[start, end)`.
    pub fn get_range(&self, start: u64, end: u64) -> (r: Vec<Entry>)
        requires
            self.wf(),
        ensures
            entry_views(r@) == self@.entries.subrange(
                count_below(first_index(self@.last_purged), self@.entries.len() as int, start as int),
                vstd::math::max(
                    count_below(first_index(self@.last_purged), self@.entries.len() as int, end as int),
                    count_below(first_index(self@.last_purged), self@.entries.len() as int, start as int),
                ),
            ),
    {
        let ghost first = first_index(self@.last_purged);
        let ghost len = self@.entries.len() as int;
        let ghost lo = count_below(first, len, start as int);
        let ghost hi = vstd::math::max(count_below(first, len, end as int), lo);
        let mut out: Vec<Entry> = Vec::new();
        let mut i: usize = 0;
        while i < self.entries.len()
            invariant
                self.wf(),
                i <= self.entries.len(),
                first == first_index(self@.last_purged),
                len == self@.entries.len(),
                0 <= lo <= hi <= len,
                lo == count_below(first, len, start as int),
                hi == vstd::math::max(count_below(first, len, end as int), lo),
                entry_views(out@) == self@.entries.subrange(vstd::math::min(lo, i as int), vstd::math::min(hi, i as int)),
            decreases self.entries.len() - i,
        {
            assert(self@.entries[i as int].log_id.index == first + i);
            assert(self@.entries[i as int] == self.entries@[i as int]@);
            let idx = self.entries[i].log_id.index;
            if idx >= start && idx < end {
                let e = copy_entry(&self.entries[i]);
                let ghost prev = out@;
                out.push(e);
                proof {
                    assert(entry_views(prev.push(e)) =~= entry_views(prev).push(e@));
                    assert(self@.entries.subrange(vstd::math::min(lo, i as int), vstd::math::min(hi, i as int)).push(
                        self@.entries[i as int]) =~= self@.entries.subrange(
                        vstd::math::min(lo, i + 1),
                        vstd::math::min(hi, i + 1),
                    ));
                }
            } else {
                assert(self@.entries.subrange(vstd::math::min(lo, i as int), vstd::math::min(hi, i as int))
                    =~= self@.entries.subrange(vstd::math::min(lo, i + 1), vstd::math::min(hi, i + 1)));
            }
            i = i + 1;
        }
        out
    }
}

/// The key an entry is stored under: its index in big-endian bytes, so that
/// the store's byte order is the log order.
pub fn log_key(index: u64) -> (r: Vec<u8>)
    ensures
        r@ == u64_be(index),
{
    let mut out: Vec<u8> = Vec::new();
    push_u64_be(&mut out, index);
    assert(out@ =~= u64_be(index));
    out
}

/// The index a stored key stands for; `None` unless it has eight bytes.
pub fn key_index(key: &[u8]) -> (r: Option<u64>)
    ensures
        key@.len() == 8 ==> r == Some(be_u64_at(key@, 0)),
        key@.len() != 8 ==> r is None,
{
    if key.len() != 8 {
        return None;
    }
    Some(((key[0] as u64) << 56u64) | ((key[1] as u64) << 48u64) | ((key[2] as u64) << 40u64) | ((key[3] as u64)
        << 32u64) | ((key[4] as u64) << 24u64) | ((key[5] as u64) << 16u64) | ((key[6] as u64) << 8u64) | (
    key[7] as u64))
}

/// A stored key reads back as the index it was made from.
pub proof fn lemma_log_key_round_trip(index: u64)
    ensures
        u64_be(index).len() == 8,
        be_u64_at(u64_be(index), 0) == index,
{
    lemma_u64_round_trip(index);
}

} // verus!
