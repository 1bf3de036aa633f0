//! The fired-reminder ledger: which `(task, remind instant)` pairs have
//! already produced a notification.
//!
//! The ledger is append-only and keyed by the pair, so a task fires again
//! only when its remind instant changes. A claim inserts if absent and says
//! whether this caller performed the insert — that answer is the at-most-once
//! guarantee. Records are purged once their firing time falls out of the
//! retention window; nothing else ever removes or rewrites them.

use vstd::prelude::*;

verus! {

use crate::strings::str_eq;

/// One firing already performed: the task, the remind instant it was
/// computed for, and when it actually fired, all in epoch milliseconds.
#[derive(Debug)]
pub struct FiredRecord {
    pub task_id: String,
    pub remind_at_ms: i64,
    pub fired_at_ms: i64,
}

/// The dedup key of a record.
pub open spec fn record_key(r: FiredRecord) -> (Seq<char>, i64) {
    (r.task_id@, r.remind_at_ms)
}

/// Whether some record in `s` carries the key `(id, at)`.
pub open spec fn seq_has_key(s: Seq<FiredRecord>, id: Seq<char>, at: i64) -> bool {
    exists|i: int| 0 <= i < s.len() && record_key(s[i]) == (id, at)
}

/// No two records share a key.
pub open spec fn distinct_keys(s: Seq<FiredRecord>) -> bool {
    forall|i: int, j: int| 0 <= i < j < s.len() ==> record_key(s[i]) != record_key(s[j])
}

proof fn lemma_has_key_push(s: Seq<FiredRecord>, r: FiredRecord, id: Seq<char>, at: i64)
    ensures
        seq_has_key(s.push(r), id, at) == (seq_has_key(s, id, at) || record_key(r) == (id, at)),
{
    if seq_has_key(s, id, at) {
        let w = choose|i: int| 0 <= i < s.len() && record_key(s[i]) == (id, at);
        assert(record_key(s.push(r)[w]) == (id, at));
    }
    if record_key(r) == (id, at) {
        assert(record_key(s.push(r)[s.len() as int]) == (id, at));
    }
    if seq_has_key(s.push(r), id, at) && record_key(r) != (id, at) {
        let w = choose|i: int| 0 <= i < s.push(r).len() && record_key(s.push(r)[i]) == (id, at);
        assert(w < s.len());
        assert(record_key(s[w]) == (id, at));
    }
}

impl FiredRecord {
    /// A copy of the record, field for field.
    pub fn duplicate(&self) -> (r: FiredRecord)
        ensures
            r.task_id@ == self.task_id@,
            r.remind_at_ms == self.remind_at_ms,
            r.fired_at_ms == self.fired_at_ms,
            record_key(r) == record_key(*self),
    {
        FiredRecord {
            task_id: self.task_id.clone(),
            remind_at_ms: self.remind_at_ms,
            fired_at_ms: self.fired_at_ms,
        }
    }
}

fn has_key(records: &Vec<FiredRecord>, task_id: &str, remind_at_ms: i64) -> (r: bool)
    ensures
        r == seq_has_key(records@, task_id@, remind_at_ms),
{
    let mut k: usize = 0;
    while k < records.len()
        invariant
            k <= records@.len(),
            forall|i: int| 0 <= i < k ==> record_key(records@[i]) != (task_id@, remind_at_ms),
        decreases records@.len() - k,
    {
        if records[k].remind_at_ms == remind_at_ms && str_eq(records[k].task_id.as_str(), task_id) {
            assert(record_key(records@[k as int]) == (task_id@, remind_at_ms));
            return true;
        }
        k = k + 1;
    }
    false
}

/// The record of firings already performed.
pub struct FiredLedger {
    records: Vec<FiredRecord>,
}

/// How one claim relates the ledger before and after it: the answer is true
/// exactly when the pair was absent, in which case one record for the pair
/// was appended; otherwise nothing changed.
pub open spec fn claim_step(
    pre: FiredLedger,
    post: FiredLedger,
    id: Seq<char>,
    at: i64,
    fired_at: i64,
    claimed: bool,
) -> bool {
    &&& claimed == !pre.is_fired_spec(id, at)
    &&& if claimed {
        &&& post.entries().len() == pre.entries().len() + 1
        &&& post.entries().take(pre.entries().len() as int) == pre.entries()
        &&& record_key(post.entries().last()) == (id, at)
        &&& post.entries().last().fired_at_ms == fired_at
    } else {
        post.entries() == pre.entries()
    }
}

impl FiredLedger {
    /// The records, oldest first.
    pub closed spec fn entries(&self) -> Seq<FiredRecord> {
        self.records@
    }

    /// Each pair appears at most once.
    pub open spec fn wf(&self) -> bool {
        distinct_keys(self.entries())
    }

    /// Whether the pair has already fired.
    pub open spec fn is_fired_spec(&self, id: Seq<char>, at: i64) -> bool {
        seq_has_key(self.entries(), id, at)
    }

    /// An empty ledger.
    pub fn new() -> (l: FiredLedger)
        ensures
            l.entries() =~= Seq::<FiredRecord>::empty(),
            l.wf(),
    {
        FiredLedger { records: Vec::new() }
    }

    /// Rebuilds a ledger from stored rows. Rows whose keys are already
    /// distinct — as rows read back from the store are — come through
    /// unchanged; otherwise the first record of each pair is kept.
    pub fn from_records(rows: Vec<FiredRecord>) -> (l: FiredLedger)
        ensures
            l.wf(),
            forall|id: Seq<char>, at: i64|
                #[trigger] l.is_fired_spec(id, at) == seq_has_key(rows@, id, at),
            distinct_keys(rows@) ==> l.entries() == rows@,
    {
        let ghost all = rows@;
        let mut rows = rows;
        let mut kept: Vec<FiredRecord> = Vec::new();
        while rows.len() > 0
            invariant
                rows@.len() <= all.len(),
                rows@ == all.subrange(all.len() - rows@.len(), all.len() as int),
                distinct_keys(kept@),
                forall|id: Seq<char>, at: i64|
                    #[trigger] seq_has_key(kept@, id, at) == seq_has_key(
                        all.take(all.len() - rows@.len()),
                        id,
                        at,
                    ),
                distinct_keys(all.take(all.len() - rows@.len())) ==> kept@ == all.take(
                    all.len() - rows@.len(),
                ),
            decreases rows@.len(),
        {
            let ghost done = all.len() - rows@.len();
            let row = rows.remove(0);
            proof {
                assert(row == all[done as int]);
                assert(rows@ =~= all.subrange(all.len() - rows@.len(), all.len() as int));
                assert(all.take(done + 1) =~= all.take(done as int).push(row));
            }
            let ghost kept0 = kept@;
            let keep: bool = !has_key(&kept, row.task_id.as_str(), row.remind_at_ms);
            if keep {
                kept.push(row);
            } else {
                proof {
                    assert(seq_has_key(all.take(done as int), record_key(all[done as int]).0,
                        record_key(all[done as int]).1));
                    let w2 = choose|i: int|
                        0 <= i < all.take(done as int).len() && record_key(
                            all.take(done as int)[i],
                        ) == record_key(all[done as int]);
                    assert(record_key(all.take(done + 1)[w2]) == record_key(
                        all.take(done + 1)[done as int],
                    ));
                    assert(!distinct_keys(all.take(done + 1)));
                }
            }
            proof {
                assert forall|id: Seq<char>, at: i64|
                    #[trigger] seq_has_key(kept@, id, at) == seq_has_key(
                        all.take(done + 1),
                        id,
                        at,
                    ) by {
                    if keep {
                        assert(kept@ == kept0.push(all[done as int]));
                        lemma_has_key_push(kept0, all[done as int], id, at);
                    }
                    lemma_has_key_push(all.take(done as int), all[done as int], id, at);
                }
                assert(all.take(done + 1).take(done as int) =~= all.take(done as int));
                if distinct_keys(all.take(done + 1)) {
                    assert(distinct_keys(all.take(done as int)));
                    if keep {
                        assert(kept@ =~= all.take(done + 1));
                    }
                }
            }
        }
        proof {
            assert(all.take(all.len() as int) =~= all);
        }
        FiredLedger { records: kept }
    }

    /// The number of records held.
    pub fn len(&self) -> (n: usize)
        ensures
            n == self.entries().len(),
    {
        self.records.len()
    }

    /// Whether `(task, instant)` has already fired.
    pub fn is_fired(&self, task_id: &str, remind_at_ms: i64) -> (r: bool)
        ensures
            r == self.is_fired_spec(task_id@, remind_at_ms),
    {
        has_key(&self.records, task_id, remind_at_ms)
    }

    /// Claims `(task, instant)`: inserts it if absent and answers whether
    /// this call performed the insert.
    pub fn try_mark_fired(&mut self, task_id: &str, remind_at_ms: i64, fired_at_ms: i64) -> (claimed:
        bool)
        requires
            old(self).wf(),
        ensures
            final(self).wf(),
            claim_step(*old(self), *final(self), task_id@, remind_at_ms, fired_at_ms, claimed),
            final(self).is_fired_spec(task_id@, remind_at_ms),
    {
        if has_key(&self.records, task_id, remind_at_ms) {
            false
        } else {
            let ghost pre = self.records@;
            self.records.push(
                FiredRecord { task_id: task_id.to_owned(), remind_at_ms, fired_at_ms },
            );
            proof {
                assert(self.records@.take(pre.len() as int) =~= pre);
                assert(record_key(self.records@[pre.len() as int]) == (task_id@, remind_at_ms));
            }
            true
        }
    }

    /// Drops every record whose firing time is before the threshold; the
    /// rest stay, in order.
    pub fn purge_older_than(&mut self, threshold_ms: i64)
        requires
            old(self).wf(),
        ensures
            final(self).wf(),
            final(self).entries() == old(self).entries().filter(
                |r: FiredRecord| r.fired_at_ms >= threshold_ms,
            ),
    {
        let ghost pred = |r: FiredRecord| r.fired_at_ms >= threshold_ms;
        let ghost all = self.records@;
        let mut kept: Vec<FiredRecord> = Vec::new();
        while self.records.len() > 0
            invariant
                self.records@.len() <= all.len(),
                self.records@ == all.subrange(
                    all.len() - self.records@.len(),
                    all.len() as int,
                ),
                kept@ == all.take(all.len() - self.records@.len()).filter(pred),
                pred == (|r: FiredRecord| r.fired_at_ms >= threshold_ms),
            decreases self.records@.len(),
        {
            let ghost done = all.len() - self.records@.len();
            let r = self.records.remove(0);
            proof {
                assert(r == all[done as int]);
                assert(self.records@ =~= all.subrange(
                    all.len() - self.records@.len(),
                    all.len() as int,
                ));
                assert(all.take(done + 1) =~= all.take(done as int).push(r));
                reveal_with_fuel(Seq::filter, 2);
                assert(all.take(done + 1).drop_last() =~= all.take(done as int));
            }
            if r.fired_at_ms >= threshold_ms {
                kept.push(r);
            }
        }
        proof {
            assert(all.take(all.len() as int) =~= all);
            lemma_filter_distinct(all, pred);
        }
        self.records = kept;
    }
}

/// Filtering keeps keys distinct: what remains is some of the same records.
proof fn lemma_filter_distinct(s: Seq<FiredRecord>, pred: spec_fn(FiredRecord) -> bool)
    requires
        distinct_keys(s),
    ensures
        distinct_keys(s.filter(pred)),
    decreases s.len(),
{
    reveal_with_fuel(Seq::filter, 2);
    if s.len() > 0 {
        assert(distinct_keys(s.drop_last()));
        lemma_filter_distinct(s.drop_last(), pred);
        if pred(s.last()) {
            let f = s.drop_last().filter(pred);
            assert forall|i: int, j: int| 0 <= i < j < f.push(s.last()).len() implies record_key(
                f.push(s.last())[i],
            ) != record_key(f.push(s.last())[j]) by {
                if j == f.len() {
                    assert(f.contains(f[i]));
                    s.drop_last().lemma_filter_contains_rev(pred, f[i]);
                    let w = choose|w: int| 0 <= w < s.drop_last().len() && s.drop_last()[w] == f[i];
                    assert(s.drop_last()[w] == s[w]);
                    assert(record_key(s[w]) != record_key(s[s.len() - 1]));
                }
            }
        }
    }
}

/// At-most-once: across any two successive claims of the same pair, at most
/// one answers true.
pub proof fn lemma_claim_at_most_once(
    l0: FiredLedger,
    l1: FiredLedger,
    l2: FiredLedger,
    id: Seq<char>,
    at: i64,
    f1: i64,
    f2: i64,
    c1: bool,
    c2: bool,
)
    requires
        claim_step(l0, l1, id, at, f1, c1),
        claim_step(l1, l2, id, at, f2, c2),
    ensures
        !(c1 && c2),
{
    if c1 {
        assert(record_key(l1.entries()[l1.entries().len() - 1]) == (id, at));
        assert(l1.is_fired_spec(id, at));
    }
}

/// Claiming one pair neither adds nor removes any other pair: a new remind
/// instant of the same task stays independently claimable.
pub proof fn lemma_claim_leaves_other_instants(
    pre: FiredLedger,
    post: FiredLedger,
    id: Seq<char>,
    at: i64,
    fired_at: i64,
    claimed: bool,
    other_id: Seq<char>,
    other_at: i64,
)
    requires
        claim_step(pre, post, id, at, fired_at, claimed),
        (other_id, other_at) != (id, at),
    ensures
        post.is_fired_spec(other_id, other_at) == pre.is_fired_spec(other_id, other_at),
{
    if claimed {
        let n = pre.entries().len() as int;
        assert(forall|i: int|
            0 <= i < n ==> post.entries()[i] == #[trigger] pre.entries().take(n)[i]
                && pre.entries().take(n)[i] == pre.entries()[i]);
        if pre.is_fired_spec(other_id, other_at) {
            let w = choose|i: int|
                0 <= i < n && record_key(pre.entries()[i]) == (other_id, other_at);
            assert(record_key(post.entries()[w]) == (other_id, other_at));
        }
        if post.is_fired_spec(other_id, other_at) {
            let w = choose|i: int|
                0 <= i < post.entries().len() && record_key(post.entries()[i]) == (
                    other_id,
                    other_at,
                );
            assert(w < n);
            assert(record_key(pre.entries()[w]) == (other_id, other_at));
        }
    }
}

/// Retention: after a purge at a threshold, a record that fired at or after
/// the threshold is still present, and one that fired before it is gone.
pub proof fn lemma_retention_window(s: Seq<FiredRecord>, threshold_ms: i64, i: int)
    requires
        0 <= i < s.len(),
    ensures
        s[i].fired_at_ms >= threshold_ms ==> s.filter(
            |r: FiredRecord| r.fired_at_ms >= threshold_ms,
        ).contains(s[i]),
        s[i].fired_at_ms < threshold_ms ==> !s.filter(
            |r: FiredRecord| r.fired_at_ms >= threshold_ms,
        ).contains(s[i]),
{
    let pred = |r: FiredRecord| r.fired_at_ms >= threshold_ms;
    if s[i].fired_at_ms >= threshold_ms {
        s.lemma_filter_contains(pred, i);
    } else {
        if s.filter(pred).contains(s[i]) {
            let w = choose|w: int| 0 <= w < s.filter(pred).len() && s.filter(pred)[w] == s[i];
            s.lemma_filter_pred(pred, w);
        }
    }
}

} // verus!
