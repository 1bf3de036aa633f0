//! The scheduler loop's decisions, as pure functions from what just
//! happened to what to do next.
//!
//! The loop itself lives outside: it runs a scheduling pass, then waits on a
//! timer, the wakeup signal, or both, as directed here. A raised wakeup
//! always sends the loop back to a fresh pass — never on to firing — so a
//! data change can invalidate a stale candidate but never a claim. A failed
//! pass backs off briefly instead of crashing the loop.

use vstd::prelude::*;

verus! {

use crate::resolver::{sat_sub_spec, ReminderCandidate};
use crate::strings::trim_of;
use crate::strings::trim_str;
use vstd::string::StringExecFns;

/// How long the loop backs off after a failed pass, in milliseconds.
pub const SCHEDULER_BACKOFF_MS: u64 = 5000;

/// What the loop is told to do after a scheduling pass.
#[derive(Clone, Copy, Debug, PartialEq, Eq, Structural)]
pub enum SchedulerDirective {
    /// The pass failed: wait out a short backoff (or a wakeup), then rerun.
    Backoff { wait_ms: u64 },
    /// No candidate: block until the wakeup signal is raised.
    WaitForWakeup,
    /// The candidate lies ahead: race its timer against the wakeup signal.
    ArmTimer { remind_at_ms: i64, delay_ms: u64 },
    /// The candidate's instant has arrived: go claim and dispatch it.
    FireNow { remind_at_ms: i64 },
}

/// Which of the two raced events ended an armed wait.
#[derive(Clone, Copy, Debug, PartialEq, Eq, Structural)]
pub enum WaitOutcome {
    WakeupSignaled,
    TimerElapsed,
}

/// What the loop does once an armed wait ends.
#[derive(Clone, Copy, Debug, PartialEq, Eq, Structural)]
pub enum ArmedStep {
    /// The data may have changed: abandon the candidate and resolve afresh.
    Reresolve,
    /// The timer ran out: fire the candidate.
    Fire,
}

/// Turns the outcome of a scheduling pass into the next directive: a failed
/// pass backs off, no candidate waits for a wakeup, a future candidate arms
/// a timer for exactly the remaining delay, and a due candidate fires now.
pub fn plan_after_resolve(
    outcome: &Result<Option<ReminderCandidate>, String>,
    now_ms: i64,
) -> (d: SchedulerDirective)
    ensures
        match outcome {
            Err(_) => d == (SchedulerDirective::Backoff { wait_ms: SCHEDULER_BACKOFF_MS }),
            Ok(None) => d == SchedulerDirective::WaitForWakeup,
            Ok(Some(c)) => if c.remind_at_ms > now_ms {
                d == (SchedulerDirective::ArmTimer {
                    remind_at_ms: c.remind_at_ms,
                    delay_ms: sat_sub_spec(c.remind_at_ms as int, now_ms as int) as u64,
                })
            } else {
                d == (SchedulerDirective::FireNow { remind_at_ms: c.remind_at_ms })
            },
        },
{
    match outcome {
        Err(_) => SchedulerDirective::Backoff { wait_ms: SCHEDULER_BACKOFF_MS },
        Ok(None) => SchedulerDirective::WaitForWakeup,
        Ok(Some(c)) => {
            if c.remind_at_ms > now_ms {
                let delay: i64 = match c.remind_at_ms.checked_sub(now_ms) {
                    Some(v) => v,
                    None => i64::MAX,
                };
                SchedulerDirective::ArmTimer { remind_at_ms: c.remind_at_ms, delay_ms: delay as u64 }
            } else {
                SchedulerDirective::FireNow { remind_at_ms: c.remind_at_ms }
            }
        },
    }
}

/// Decides what an ended armed wait means: a wakeup abandons the candidate
/// and re-resolves at once — the loop never sleeps out a stale timer — and
/// only an elapsed timer goes on to fire.
pub fn plan_after_wait(w: WaitOutcome) -> (s: ArmedStep)
    ensures
        w == WaitOutcome::WakeupSignaled ==> s == ArmedStep::Reresolve,
        w == WaitOutcome::TimerElapsed ==> s == ArmedStep::Fire,
{
    match w {
        WaitOutcome::WakeupSignaled => ArmedStep::Reresolve,
        WaitOutcome::TimerElapsed => ArmedStep::Fire,
    }
}

/// The single-slot wakeup signal: any number of raises before the next
/// consume collapse into one pending wake, and a consume drains it. The
/// loop's wait primitive mirrors these moves, so a raise between two passes
/// is never lost.
pub struct WakeupSlot {
    raised: bool,
}

impl WakeupSlot {
    /// Whether a wake is pending.
    pub closed spec fn pending(&self) -> bool {
        self.raised
    }

    /// A slot with no pending wake.
    pub fn new() -> (s: WakeupSlot)
        ensures
            !s.pending(),
    {
        WakeupSlot { raised: false }
    }

    /// Raises the signal; raising an already-raised slot changes nothing.
    pub fn raise(&mut self)
        ensures
            final(self).pending(),
    {
        self.raised = true;
    }

    /// Takes the pending wake, if any, and leaves the slot empty.
    pub fn consume(&mut self) -> (was: bool)
        ensures
            was == old(self).pending(),
            !final(self).pending(),
    {
        let was = self.raised;
        self.raised = false;
        was
    }
}

/// The fallback notification body: `list · date time`, or `date time` when
/// the task has no list.
pub open spec fn fallback_body_spec(
    list_name: Option<String>,
    date: Seq<char>,
    time: Seq<char>,
) -> Seq<char> {
    match list_name {
        Some(n) => n@ + " · "@ + date + " "@ + time,
        None => date + " "@ + time,
    }
}

/// The notification body: the task's detail when it has any non-blank text,
/// else the fallback of list name, due date and due time.
pub fn notification_body(
    detail: &Option<String>,
    list_name: &Option<String>,
    due_date: &str,
    time: &str,
) -> (b: String)
    ensures
        match detail {
            Some(d) => if trim_of(d@).len() > 0 {
                b@ == d@
            } else {
                b@ == fallback_body_spec(*list_name, due_date@, time@)
            },
            None => b@ == fallback_body_spec(*list_name, due_date@, time@),
        },
{
    if let Some(d) = detail {
        if !trim_str(d.as_str()).is_empty() {
            return d.clone();
        }
    }
    let mut b: String = String::new();
    if let Some(n) = list_name {
        b.append(n.as_str());
        b.append(" · ");
    }
    b.append(due_date);
    b.append(" ");
    b.append(time);
    proof {
        match list_name {
            Some(n) => {
                assert(b@ =~= n@ + " · "@ + due_date@ + " "@ + time@);
            },
            None => {
                assert(b@ =~= due_date@ + " "@ + time@);
            },
        }
    }
    b
}

/// The notification title: the reminder prefix followed by the task title.
pub fn notification_title(task_title: &str) -> (t: String)
    ensures
        t@ == "任务提醒："@ + task_title@,
{
    let mut t: String = String::new();
    t.append("任务提醒：");
    t.append(task_title);
    proof {
        assert(t@ =~= "任务提醒："@ + task_title@);
    }
    t
}

} // verus!
