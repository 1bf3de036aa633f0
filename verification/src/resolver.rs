//! The reminder resolver: the single next reminder to fire.
//!
//! A scheduling pass first purges ledger records that have fallen out of the
//! retention window, then turns each stored task row into a candidate with a
//! computed remind instant, and picks the eligible candidate with the
//! soonest instant. Eligible means: not fired yet for that instant, and not
//! missed by more than the grace window. Ties on the instant go to the
//! earliest-created task — rows arrive in creation order and the first of
//! equals wins — so the choice is deterministic.

use vstd::prelude::*;

verus! {

use crate::clock::local_epoch_ms;
use crate::dates::{parse_date_text, parse_time_text, parse_date_ymd, parse_time_hm, Date, TimeOfDay};
use crate::ledger::{FiredLedger, FiredRecord};
use crate::model::TaskItem;
use crate::rules::{clamp_non_negative, reminder_from_db};
use crate::strings::clone_opt_string;

/// How long past its instant a reminder may still fire, in milliseconds.
pub const REMINDER_GRACE_MS: i64 = 10 * 60 * 1000;

/// How long fired records are retained, in milliseconds.
pub const FIRED_REMINDER_RETENTION_MS: i64 = 30 * 24 * 60 * 60 * 1000;

/// One stored task row with what the resolver reads of it.
#[derive(Debug)]
pub struct TaskRow {
    pub task_id: String,
    pub title: String,
    pub detail: Option<String>,
    pub list_name: Option<String>,
    pub completed: bool,
    pub due_date: Option<String>,
    pub time: Option<String>,
    pub reminder_enabled: Option<i64>,
    pub reminder_offset: Option<i64>,
}

/// A task eligible to have its reminder fired, with its computed instant.
#[derive(Debug)]
pub struct ReminderCandidate {
    pub task_id: String,
    pub task_title: String,
    pub task_detail: Option<String>,
    pub list_name: Option<String>,
    pub due_date: String,
    pub time: String,
    pub remind_at_ms: i64,
}

/// What the diagnostic surface reports of the next candidate.
#[derive(Debug)]
pub struct DebugNextReminder {
    pub task_id: String,
    pub task_title: String,
    pub remind_at: i64,
    pub due_date: String,
    pub time: String,
    pub now: i64,
    pub delay_ms: i64,
}

/// The clamped offset in milliseconds.
pub open spec fn offset_ms_spec(offset_minutes: int) -> int {
    clamp_non_negative(offset_minutes) * 60000
}

/// What a task must carry for a remind instant to exist at all: a readable
/// due date and time, and a relative reminder; the triple is those parts.
pub open spec fn remind_prereqs(task: TaskItem) -> Option<(Date, TimeOfDay, int)> {
    match task.due_date {
        Some(ds) => match parse_date_text(ds@) {
            Some(d) => match task.time {
                Some(ts) => match parse_time_text(ts@) {
                    Some(t) => match task.reminder {
                        Some(rem) => if rem.reminder_type@ == "relative"@ {
                            Some((d, t, clamp_non_negative(rem.offset_minutes as int)))
                        } else {
                            None
                        },
                        None => None,
                    },
                    None => None,
                },
                None => None,
            },
            None => None,
        },
        None => None,
    }
}

/// The remind instant: the due instant minus the clamped offset, when that
/// value is representable.
pub fn remind_at_from(due_ms: i64, offset_minutes: i64) -> (r: Option<i64>)
    ensures
        r is Some <==> offset_ms_spec(offset_minutes as int) <= i64::MAX && due_ms
            - offset_ms_spec(offset_minutes as int) >= i64::MIN,
        r matches Some(v) ==> v == due_ms - offset_ms_spec(offset_minutes as int),
{
    let clamped: i64 = if offset_minutes >= 0 {
        offset_minutes
    } else {
        0
    };
    let scaled: i64 = match clamped.checked_mul(60000) {
        Some(v) => v,
        None => {
            return None;
        },
    };
    match due_ms.checked_sub(scaled) {
        Some(v) => Some(v),
        None => None,
    }
}

/// The remind instant of a task, when its due date and time are present and
/// readable, its reminder is relative, and the local time zone gives the due
/// instant a meaning. The instant itself comes from the machine's time zone,
/// so only its preconditions are pinned down.
pub fn compute_remind_at(task: &TaskItem) -> (r: Option<i64>)
    ensures
        remind_prereqs(*task) is None ==> r is None,
        r is Some ==> remind_prereqs(*task) is Some,
{
    let due = match &task.due_date {
        Some(due) => due,
        None => {
            return None;
        },
    };
    let date: Date = match parse_date_ymd(due.as_str()) {
        Some(d) => d,
        None => {
            return None;
        },
    };
    let time_text = match &task.time {
        Some(t) => t,
        None => {
            return None;
        },
    };
    let time: TimeOfDay = match parse_time_hm(time_text.as_str()) {
        Some(t) => t,
        None => {
            return None;
        },
    };
    let reminder = match &task.reminder {
        Some(rem) => rem,
        None => {
            return None;
        },
    };
    if !crate::strings::str_eq(reminder.reminder_type.as_str(), "relative") {
        return None;
    }
    let due_ms: i64 = match local_epoch_ms(date.year, date.month, date.day, time.hour, time.minute)
        {
        Some(v) => v,
        None => {
            return None;
        },
    };
    remind_at_from(due_ms, reminder.offset_minutes)
}

/// A candidate that may still fire at `now`: within the grace window and not
/// yet in the ledger for its instant.
pub open spec fn eligible_spec(c: ReminderCandidate, now_ms: int, ledger: FiredLedger) -> bool {
    &&& c.remind_at_ms >= now_ms - REMINDER_GRACE_MS
    &&& !ledger.is_fired_spec(c.task_id@, c.remind_at_ms)
}

/// The one index the resolver answers with: eligible, soonest, and first
/// among candidates tied on the instant.
pub open spec fn is_selected_index(
    cands: Seq<ReminderCandidate>,
    now_ms: int,
    ledger: FiredLedger,
    i: int,
) -> bool {
    &&& 0 <= i < cands.len()
    &&& eligible_spec(cands[i], now_ms, ledger)
    &&& forall|j: int|
        0 <= j < cands.len() && eligible_spec(#[trigger] cands[j], now_ms, ledger)
            ==> cands[i].remind_at_ms <= cands[j].remind_at_ms
    &&& forall|j: int|
        0 <= j < i && eligible_spec(#[trigger] cands[j], now_ms, ledger) ==> cands[i].remind_at_ms
            < cands[j].remind_at_ms
}

/// Picks the next reminder among candidates with computed instants.
pub fn select_next_index(cands: &Vec<ReminderCandidate>, now_ms: i64, ledger: &FiredLedger) -> (r:
    Option<usize>)
    requires
        now_ms >= i64::MIN + REMINDER_GRACE_MS,
    ensures
        r matches Some(i) ==> is_selected_index(cands@, now_ms as int, *ledger, i as int),
        r is None ==> forall|j: int|
            0 <= j < cands@.len() ==> !eligible_spec(#[trigger] cands@[j], now_ms as int, *ledger),
{
    let cutoff: i64 = now_ms - REMINDER_GRACE_MS;
    let mut best: Option<usize> = None;
    let mut j: usize = 0;
    while j < cands.len()
        invariant
            j <= cands@.len(),
            now_ms >= i64::MIN + REMINDER_GRACE_MS,
            cutoff == now_ms - REMINDER_GRACE_MS,
            match best {
                Some(b) => {
                    &&& b < j
                    &&& eligible_spec(cands@[b as int], now_ms as int, *ledger)
                    &&& forall|k: int|
                        0 <= k < j && eligible_spec(#[trigger] cands@[k], now_ms as int, *ledger)
                            ==> cands@[b as int].remind_at_ms <= cands@[k].remind_at_ms
                    &&& forall|k: int|
                        0 <= k < b && eligible_spec(#[trigger] cands@[k], now_ms as int, *ledger)
                            ==> cands@[b as int].remind_at_ms < cands@[k].remind_at_ms
                },
                None => forall|k: int|
                    0 <= k < j ==> !eligible_spec(#[trigger] cands@[k], now_ms as int, *ledger),
            },
        decreases cands@.len() - j,
    {
        let c = &cands[j];
        if c.remind_at_ms >= cutoff && !ledger.is_fired(c.task_id.as_str(), c.remind_at_ms) {
            let replace: bool = match best {
                Some(b) => c.remind_at_ms < cands[b].remind_at_ms,
                None => true,
            };
            if replace {
                best = Some(j);
            }
        }
        j = j + 1;
    }
    best
}

/// The resolver's answer is a function of its inputs alone: two selected
/// indices over the same candidates, instant and ledger are the same index.
pub proof fn lemma_selection_deterministic(
    cands: Seq<ReminderCandidate>,
    now_ms: int,
    ledger: FiredLedger,
    i: int,
    j: int,
)
    requires
        is_selected_index(cands, now_ms, ledger, i),
        is_selected_index(cands, now_ms, ledger, j),
    ensures
        i == j,
{
    if i < j {
        assert(cands[j].remind_at_ms < cands[i].remind_at_ms);
        assert(cands[i].remind_at_ms <= cands[j].remind_at_ms);
    }
    if j < i {
        assert(cands[i].remind_at_ms < cands[j].remind_at_ms);
        assert(cands[j].remind_at_ms <= cands[i].remind_at_ms);
    }
}

/// How a returned candidate relates to the stored row it came from: an
/// incomplete task with a due date, a due time and an enabled reminder,
/// whose texts the candidate carries unchanged.
pub open spec fn row_yields(row: TaskRow, c: ReminderCandidate) -> bool {
    &&& !row.completed
    &&& c.task_id@ == row.task_id@
    &&& c.task_title@ == row.title@
    &&& match (row.detail, c.task_detail) {
        (Some(a), Some(b)) => a@ == b@,
        (None, None) => true,
        _ => false,
    }
    &&& match (row.list_name, c.list_name) {
        (Some(a), Some(b)) => a@ == b@,
        (None, None) => true,
        _ => false,
    }
    &&& row.due_date matches Some(ds) && c.due_date@ == ds@
    &&& row.time matches Some(ts) && c.time@ == ts@
    &&& match row.reminder_enabled {
        Some(v) => v != 0,
        None => false,
    }
}

/// One scheduling pass over the stored rows: purges ledger records older
/// than the retention window, computes each row's remind instant, and
/// resolves the next reminder to fire. The answer, if any, comes from one of
/// the rows, lies within the grace window, and has not fired.
pub fn query_next_reminder(rows: &Vec<TaskRow>, now_ms: i64, ledger: &mut FiredLedger) -> (r:
    Option<ReminderCandidate>)
    requires
        old(ledger).wf(),
        now_ms >= i64::MIN + FIRED_REMINDER_RETENTION_MS,
    ensures
        final(ledger).wf(),
        final(ledger).entries() == old(ledger).entries().filter(
            |rec: FiredRecord| rec.fired_at_ms >= now_ms - FIRED_REMINDER_RETENTION_MS,
        ),
        r matches Some(c) ==> c.remind_at_ms >= now_ms - REMINDER_GRACE_MS,
        r matches Some(c) ==> !final(ledger).is_fired_spec(c.task_id@, c.remind_at_ms),
        r matches Some(c) ==> exists|i: int|
            0 <= i < rows@.len() && row_yields(#[trigger] rows@[i], c),
{
    ledger.purge_older_than(now_ms - FIRED_REMINDER_RETENTION_MS);

    let mut cands: Vec<ReminderCandidate> = Vec::new();
    let mut i: usize = 0;
    while i < rows.len()
        invariant
            i <= rows@.len(),
            forall|k: int|
                #![trigger cands@[k]]
                0 <= k < cands@.len() ==> exists|w: int|
                    0 <= w < rows@.len() && row_yields(#[trigger] rows@[w], cands@[k]),
        decreases rows@.len() - i,
    {
        let row = &rows[i];
        let enabled: i64 = match row.reminder_enabled {
            Some(v) => v,
            None => 0,
        };
        if !row.completed && enabled != 0 {
            if let Some(ds) = &row.due_date {
                if let Some(ts) = &row.time {
                    let task = TaskItem {
                        id: row.task_id.clone(),
                        list_id: None,
                        title: row.title.clone(),
                        detail: clone_opt_string(&row.detail),
                        completed: false,
                        due_date: Some(ds.clone()),
                        time: Some(ts.clone()),
                        reminder: reminder_from_db(row.reminder_enabled, row.reminder_offset),
                        repeat_rule: None,
                        actions: None,
                    };
                    if let Some(at) = compute_remind_at(&task) {
                        let cand = ReminderCandidate {
                            task_id: row.task_id.clone(),
                            task_title: row.title.clone(),
                            task_detail: clone_opt_string(&row.detail),
                            list_name: clone_opt_string(&row.list_name),
                            due_date: ds.clone(),
                            time: ts.clone(),
                            remind_at_ms: at,
                        };
                        assert(row_yields(rows@[i as int], cand));
                        cands.push(cand);
                    }
                }
            }
        }
        i = i + 1;
    }

    match select_next_index(&cands, now_ms, ledger) {
        Some(idx) => {
            let c = cands.swap_remove(idx);
            Some(c)
        },
        None => None,
    }
}

/// The saturating difference of two instants.
pub open spec fn sat_sub_spec(a: int, b: int) -> int {
    if a - b > i64::MAX {
        i64::MAX as int
    } else if a - b < i64::MIN {
        i64::MIN as int
    } else {
        a - b
    }
}

/// The diagnostic view of the resolved candidate: its fields unchanged, the
/// instant it will fire at, and the delay from `now`.
pub fn debug_next_reminder(c: &ReminderCandidate, now_ms: i64) -> (d: DebugNextReminder)
    ensures
        d.task_id@ == c.task_id@,
        d.task_title@ == c.task_title@,
        d.remind_at == c.remind_at_ms,
        d.due_date@ == c.due_date@,
        d.time@ == c.time@,
        d.now == now_ms,
        d.delay_ms == sat_sub_spec(c.remind_at_ms as int, now_ms as int),
{
    let delay: i64 = match c.remind_at_ms.checked_sub(now_ms) {
        Some(v) => v,
        None => {
            if c.remind_at_ms > now_ms {
                i64::MAX
            } else {
                i64::MIN
            }
        },
    };
    DebugNextReminder {
        task_id: c.task_id.clone(),
        task_title: c.task_title.clone(),
        remind_at: c.remind_at_ms,
        due_date: c.due_date.clone(),
        time: c.time.clone(),
        now: now_ms,
        delay_ms: delay,
    }
}

} // verus!
