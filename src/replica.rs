//! Applying committed log entries to the state machine, in log order.
use vstd::prelude::*;

use crate::kv::{Response, ResponseView};
use crate::log_store::{copy_entry, entry_views};
use crate::protocol::LogId;
use crate::snapshot::{log_in_order, replay};
use crate::state_machine::{apply_entry, can_follow, Entry, EntryView, StateMachine, StateView};

verus! {

/// The reply to each entry of `log` when it is replayed on `s`.
pub open spec fn replay_responses(s: StateView, log: Seq<EntryView>) -> Seq<ResponseView> {
    Seq::new(log.len(), |i: int| apply_entry(replay(s, log.take(i)), log[i]).1)
}

proof fn lemma_in_order_prefix(applied: Option<LogId>, log: Seq<EntryView>, i: int)
    requires
        log_in_order(applied, log),
        0 <= i < log.len(),
    ensures
        can_follow(
            if i > 0 {
                Some(log[i - 1].log_id)
            } else {
                applied
            },
            log[i].log_id,
        ),
    decreases log.len(),
{
    if i < log.len() - 1 {
        let init = log.drop_last();
        lemma_in_order_prefix(applied, init, i);
        if i > 0 {
            assert(init[i - 1] == log[i - 1]);
        }
    } else if log.len() > 1 {
        assert(log[log.len() - 2] == log[i - 1]);
    }
}

/// Applies `entries` in order; they must follow the last applied position
/// one after the other. The state ends as replaying them gives, and the
/// reply to each entry is returned in order.
pub fn apply_entries(sm: &mut StateMachine, entries: &Vec<Entry>) -> (r: Vec<Response>)
    requires
        old(sm).wf(),
        log_in_order(old(sm)@.applied, entry_views(entries@)),
    ensures
        final(sm).wf(),
        final(sm)@ == replay(old(sm)@, entry_views(entries@)),
        r.len() == entries.len(),
        forall|i: int| 0 <= i < r.len() ==> #[trigger] r@[i]@ == replay_responses(old(sm)@, entry_views(entries@))[i],
{
    let ghost s0 = sm@;
    let ghost log = entry_views(entries@);
    let mut out: Vec<Response> = Vec::new();
    let mut i: usize = 0;
    assert(log.take(0) =~= Seq::<EntryView>::empty());
    while i < entries.len()
        invariant
            i <= entries.len(),
            log == entry_views(entries@),
            log_in_order(s0.applied, log),
            sm.wf(),
            sm@ == replay(s0, log.take(i as int)),
            sm@.applied == if i > 0 {
                Some(log[i - 1].log_id)
            } else {
                s0.applied
            },
            out.len() == i,
            forall|j: int| 0 <= j < i ==> #[trigger] out@[j]@ == replay_responses(s0, log)[j],
        decreases entries.len() - i,
    {
        proof {
            lemma_in_order_prefix(s0.applied, log, i as int);
        }
        let e = copy_entry(&entries[i]);
        assert(log[i as int] == entries@[i as int]@);
        let resp = sm.apply(e);
        proof {
            assert(log.take(i + 1).drop_last() =~= log.take(i as int));
            assert(log.take(i + 1).last() == log[i as int]);
        }
        out.push(resp);
        i = i + 1;
    }
    assert(log.take(i as int) =~= log);
    out
}

} // verus!
