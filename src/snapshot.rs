//! Point-in-time images of the state machine, and installing them.
use vstd::prelude::*;

use crate::assoc::{keys_unique, pairs_to_map};
use crate::protocol::LogId;
use crate::state_machine::{
    apply_entry, can_follow, entry_pairs, lemma_apply_entry_bounded, lemma_revision_monotonic,
    revision_bound, revisions_bounded, session_pairs, EntryView, KvEntry, SessionRecord, StateView,
};

verus! {

/// An image of the state machine: its keys with values and revisions,
/// the recorded reply of each client, and the last applied position.
#[derive(Clone, Debug, PartialEq, Eq)]
pub struct Snapshot {
    pub entries: Vec<KvEntry>,
    pub sessions: Vec<SessionRecord>,
    pub last_applied: Option<LogId>,
}

/// Why an image cannot be installed.
#[derive(Clone, Copy, Debug, PartialEq, Eq, Structural)]
pub enum SnapshotError {
    DuplicateKey,
    DuplicateClient,
    RevisionOutOfRange,
}

impl View for Snapshot {
    type V = StateView;

    open spec fn view(&self) -> StateView {
        StateView {
            data: pairs_to_map(entry_pairs(self.entries@)),
            sessions: pairs_to_map(session_pairs(self.sessions@)),
            applied: self.last_applied,
        }
    }
}

impl Snapshot {
    pub open spec fn keys_distinct(&self) -> bool {
        keys_unique(entry_pairs(self.entries@))
    }

    pub open spec fn clients_distinct(&self) -> bool {
        keys_unique(session_pairs(self.sessions@))
    }

    pub open spec fn revisions_in_range(&self) -> bool {
        forall|i: int|
            0 <= i < self.entries.len() ==> 1 <= #[trigger] self.entries@[i].revision <= revision_bound(
                self.last_applied,
            )
    }

    /// The image could have been taken of a well-formed state machine.
    pub open spec fn is_valid(&self) -> bool {
        self.keys_distinct() && self.clients_distinct() && self.revisions_in_range()
    }
}

pub(crate) fn keys_distinct(entries: &Vec<KvEntry>) -> (r: bool)
    ensures
        r == keys_unique(entry_pairs(entries@)),
{
    let ghost p = entry_pairs(entries@);
    let mut i: usize = 0;
    while i < entries.len()
        invariant
            i <= entries.len(),
            p == entry_pairs(entries@),
            forall|a: int, b: int| 0 <= a < b < i ==> p[a].0 != p[b].0,
        decreases entries.len() - i,
    {
        let mut j: usize = 0;
        while j < i
            invariant
                j <= i < entries.len(),
                p == entry_pairs(entries@),
                forall|a: int, b: int| 0 <= a < b < i ==> p[a].0 != p[b].0,
                forall|a: int| 0 <= a < j ==> p[a].0 != p[i as int].0,
            decreases i - j,
        {
            if entries[j].key == entries[i].key {
                assert(p[j as int].0 == p[i as int].0);
                return false;
            }
            j = j + 1;
        }
        i = i + 1;
    }
    true
}

pub(crate) fn clients_distinct(records: &Vec<SessionRecord>) -> (r: bool)
    ensures
        r == keys_unique(session_pairs(records@)),
{
    let ghost p = session_pairs(records@);
    let mut i: usize = 0;
    while i < records.len()
        invariant
            i <= records.len(),
            p == session_pairs(records@),
            forall|a: int, b: int| 0 <= a < b < i ==> p[a].0 != p[b].0,
        decreases records.len() - i,
    {
        let mut j: usize = 0;
        while j < i
            invariant
                j <= i < records.len(),
                p == session_pairs(records@),
                forall|a: int, b: int| 0 <= a < b < i ==> p[a].0 != p[b].0,
                forall|a: int| 0 <= a < j ==> p[a].0 != p[i as int].0,
            decreases i - j,
        {
            if records[j].client_id == records[i].client_id {
                assert(p[j as int].0 == p[i as int].0);
                return false;
            }
            j = j + 1;
        }
        i = i + 1;
    }
    true
}

pub(crate) fn revisions_in_range(snap: &Snapshot) -> (r: bool)
    ensures
        r == snap.revisions_in_range(),
{
    let mut i: usize = 0;
    while i < snap.entries.len()
        invariant
            i <= snap.entries.len(),
            forall|a: int| 0 <= a < i ==> 1 <= #[trigger] snap.entries@[a].revision <= revision_bound(snap.last_applied),
        decreases snap.entries.len() - i,
    {
        let rev = snap.entries[i].revision;
        let ok = match snap.last_applied {
            Some(l) => 1 <= rev && (rev <= l.index || rev - 1 == l.index),
            None => false,
        };
        if !ok {
            return false;
        }
        i = i + 1;
    }
    true
}

/// The state after applying a sequence of entries in order.
pub open spec fn replay(s: StateView, log: Seq<EntryView>) -> StateView
    decreases log.len(),
{
    if log.len() == 0 {
        s
    } else {
        apply_entry(replay(s, log.drop_last()), log.last()).0
    }
}

/// Snapshot equivalence: replaying a tail of the log on the image taken
/// after its prefix gives the state that replaying the whole log gives.
pub proof fn lemma_snapshot_equivalence(s: StateView, prefix: Seq<EntryView>, tail: Seq<EntryView>)
    ensures
        replay(replay(s, prefix), tail) == replay(s, prefix + tail),
    decreases tail.len(),
{
    if tail.len() == 0 {
        assert(prefix + tail =~= prefix);
    } else {
        assert((prefix + tail).drop_last() =~= prefix + tail.drop_last());
        lemma_snapshot_equivalence(s, prefix, tail.drop_last());
    }
}

/// Each entry of `log` may follow the one before it, the first one the
/// position `applied`.
pub open spec fn log_in_order(applied: Option<LogId>, log: Seq<EntryView>) -> bool
    decreases log.len(),
{
    if log.len() == 0 {
        true
    } else {
        let prev = if log.len() > 1 {
            Some(log[log.len() - 2].log_id)
        } else {
            applied
        };
        log_in_order(applied, log.drop_last()) && can_follow(prev, log.last().log_id)
    }
}

/// Monotonic revisions over a whole log: replaying entries in order keeps
/// every key and never lowers its revision, and keeps the revisions within
/// the applied bound.
pub proof fn lemma_replay_monotonic(s: StateView, log: Seq<EntryView>)
    requires
        revisions_bounded(s),
        log_in_order(s.applied, log),
    ensures
        revisions_bounded(replay(s, log)),
        replay(s, log).applied == if log.len() > 0 {
            Some(log.last().log_id)
        } else {
            s.applied
        },
        forall|k: Seq<char>| #[trigger]
            s.data.contains_key(k) ==> replay(s, log).data.contains_key(k) && replay(s, log).data[k].revision
                >= s.data[k].revision,
    decreases log.len(),
{
    if log.len() > 0 {
        let init = log.drop_last();
        lemma_replay_monotonic(s, init);
        let mid = replay(s, init);
        let e = log.last();
        if log.len() > 1 {
            assert(init.last() == log[log.len() - 2]);
        }
        lemma_apply_entry_bounded(mid, e);
        assert forall|k: Seq<char>| #[trigger] mid.data.contains_key(k) implies mid.data[k].revision < u64::MAX by {
            assert(mid.data[k].revision <= revision_bound(mid.applied));
        }
        match e.payload {
            Some(req) => {
                if !crate::state_machine::is_duplicate(mid.sessions, req) {
                    lemma_revision_monotonic(mid.data, req.op);
                }
            },
            None => {},
        }
    }
}

} // verus!
