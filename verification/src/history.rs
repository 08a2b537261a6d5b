//! The bounded log of state transitions kept by a plan's context.

use vstd::prelude::*;
use std::collections::VecDeque;
use crate::external::{utc_now, Timestamp};
use crate::task::opt_text;

verus! {

/// The most entries the log keeps; older entries are dropped first.
pub const MAX_HISTORY_SIZE: usize = 20;

/// A single state transition event.
pub struct TransitionLogEntry {
    pub timestamp: Timestamp,
    pub action: String,
    pub details: Option<String>,
}

/// The content of a log entry.
pub struct EntryView {
    pub timestamp: Timestamp,
    pub action: Seq<char>,
    pub details: Option<Seq<char>>,
}

impl View for TransitionLogEntry {
    type V = EntryView;

    open spec fn view(&self) -> EntryView {
        EntryView { timestamp: self.timestamp, action: self.action@, details: opt_text(self.details) }
    }
}

/// The contents of a log of entries.
pub open spec fn entries_view(s: Seq<TransitionLogEntry>) -> Seq<EntryView> {
    s.map_values(|e: TransitionLogEntry| e@)
}

/// An action name with its optional details, as logged.
pub type LogItem = (Seq<char>, Option<Seq<char>>);

/// `new_h` is `old_h` followed by entries carrying `items` in order, cut to
/// the newest `MAX_HISTORY_SIZE` entries. The timestamps of the new entries
/// are those of the clock when they were made, and are not constrained.
pub open spec fn appended_log(old_h: Seq<EntryView>, new_h: Seq<EntryView>, items: Seq<LogItem>) -> bool {
    let total = old_h.len() + items.len();
    let keep = if total > MAX_HISTORY_SIZE {
        MAX_HISTORY_SIZE as int
    } else {
        total as int
    };
    &&& new_h.len() == keep
    &&& forall|j: int|
        0 <= j < keep ==> {
            let k = total - keep + j;
            if k < old_h.len() {
                #[trigger] new_h[j] == old_h[k]
            } else {
                &&& new_h[j].action == items[k - old_h.len()].0
                &&& new_h[j].details == items[k - old_h.len()].1
            }
        }
}

/// The log of two operations in a row is the log of one operation that
/// logs the items of both: so after any sequence of operations the log holds
/// the newest `MAX_HISTORY_SIZE` of all the entries ever made (all of them
/// while there are fewer), oldest first.
pub proof fn law_log_composes(
    h0: Seq<EntryView>,
    h1: Seq<EntryView>,
    h2: Seq<EntryView>,
    first: Seq<LogItem>,
    second: Seq<LogItem>,
)
    requires
        h0.len() <= MAX_HISTORY_SIZE,
        appended_log(h0, h1, first),
        appended_log(h1, h2, second),
    ensures
        appended_log(h0, h2, first + second),
{
    let all = first + second;
    let total = h0.len() + all.len();
    let keep = if total > MAX_HISTORY_SIZE { MAX_HISTORY_SIZE as int } else { total as int };
    let total0 = h0.len() + first.len();
    let keep0 = if total0 > MAX_HISTORY_SIZE { MAX_HISTORY_SIZE as int } else { total0 as int };
    let t1 = h1.len() + second.len();
    let keep1 = if t1 > MAX_HISTORY_SIZE { MAX_HISTORY_SIZE as int } else { t1 as int };
    assert(h1.len() == keep0);
    assert(keep1 == keep);
    assert forall|j: int| 0 <= j < keep implies {
        let k = total - keep + j;
        if k < h0.len() {
            #[trigger] h2[j] == h0[k]
        } else {
            &&& h2[j].action == all[k - h0.len()].0
            &&& h2[j].details == all[k - h0.len()].1
        }
    } by {
        let k1 = t1 - keep1 + j;
        let k = total - keep + j;
        assert(k == total0 - keep0 + k1);
        if k1 < h1.len() {
            assert(h2[j] == h1[k1]);
            if k < h0.len() {
                assert(h1[k1] == h0[k]);
            } else {
                assert(all[k - h0.len()] == first[k - h0.len()]);
            }
        } else {
            assert(k - h0.len() == first.len() + (k1 - h1.len()));
            assert(all[k - h0.len()] == second[k1 - h1.len()]);
        }
    }
}

/// Appending one item after others composes.
pub proof fn lemma_appended_step(
    h0: Seq<EntryView>,
    h1: Seq<EntryView>,
    h2: Seq<EntryView>,
    items: Seq<LogItem>,
    x: LogItem,
)
    requires
        h0.len() <= MAX_HISTORY_SIZE,
        appended_log(h0, h1, items),
        appended_log(h1, h2, seq![x]),
    ensures
        appended_log(h0, h2, items.push(x)),
{
    law_log_composes(h0, h1, h2, items, seq![x]);
    assert(items + seq![x] =~= items.push(x));
}

impl TransitionLogEntry {
    /// Creates an entry stamped with the current time.
    pub fn new(action: String, details: Option<String>) -> (e: Self)
        ensures
            e@.action == action@,
            e@.details == opt_text(details),
    {
        TransitionLogEntry { timestamp: utc_now(), action, details }
    }
}

impl Clone for TransitionLogEntry {
    fn clone(&self) -> (r: Self)
        ensures
            r@ == self@,
    {
        TransitionLogEntry {
            timestamp: self.timestamp,
            action: self.action.clone(),
            details: match &self.details {
                Some(d) => Some(d.clone()),
                None => None,
            },
        }
    }
}

/// The contents of a log held in a double-ended queue.
pub open spec fn log_view(h: VecDeque<TransitionLogEntry>) -> Seq<EntryView> {
    entries_view(h@)
}

/// Records an entry, dropping the oldest one when the log is full.
pub fn log_transition(history: &mut VecDeque<TransitionLogEntry>, action: String, details: Option<String>)
    requires
        old(history)@.len() <= MAX_HISTORY_SIZE,
    ensures
        final(history)@.len() <= MAX_HISTORY_SIZE,
        appended_log(log_view(*old(history)), log_view(*final(history)), seq![(action@, opt_text(details))]),
{
    let ghost old_h = log_view(*history);
    if history.len() == MAX_HISTORY_SIZE {
        history.pop_front();
    }
    let e = TransitionLogEntry::new(action, details);
    history.push_back(e);
    assert(log_view(*history).len() == history@.len());
}

/// A copy of the entries of the log, oldest first.
pub fn history_entries(history: &VecDeque<TransitionLogEntry>) -> (v: Vec<TransitionLogEntry>)
    ensures
        entries_view(v@) == log_view(*history),
{
    let mut v: Vec<TransitionLogEntry> = Vec::new();
    let mut i: usize = 0;
    while i < history.len()
        invariant
            i <= history@.len(),
            v@.len() == i,
            forall|j: int| 0 <= j < i ==> #[trigger] v@[j]@ == history@[j]@,
        decreases history@.len() - i,
    {
        let e = history[i].clone();
        v.push(e);
        i = i + 1;
    }
    assert(entries_view(v@) =~= log_view(*history));
    v
}

} // verus!
