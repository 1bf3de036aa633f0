use linkflow::resolver::ReminderCandidate;
use linkflow::scheduler::{
    notification_body, notification_title, plan_after_resolve, plan_after_wait, ArmedStep,
    SchedulerDirective, WaitOutcome, WakeupSlot, SCHEDULER_BACKOFF_MS,
};

fn candidate(remind_at_ms: i64) -> ReminderCandidate {
    ReminderCandidate {
        task_id: "task_a".to_string(),
        task_title: "title".to_string(),
        task_detail: None,
        list_name: None,
        due_date: "2031-05-20".to_string(),
        time: "12:00".to_string(),
        remind_at_ms,
    }
}

#[test]
fn failed_pass_backs_off_five_seconds() {
    let outcome: Result<Option<ReminderCandidate>, String> = Err("store is down".to_string());
    assert_eq!(
        plan_after_resolve(&outcome, 1_000),
        SchedulerDirective::Backoff {
            wait_ms: SCHEDULER_BACKOFF_MS
        }
    );
    assert_eq!(SCHEDULER_BACKOFF_MS, 5_000);
}

#[test]
fn no_candidate_waits_for_a_wakeup() {
    let outcome: Result<Option<ReminderCandidate>, String> = Ok(None);
    assert_eq!(
        plan_after_resolve(&outcome, 1_000),
        SchedulerDirective::WaitForWakeup
    );
}

#[test]
fn future_candidate_arms_a_timer_for_the_remaining_delay() {
    let outcome = Ok(Some(candidate(10_000)));
    assert_eq!(
        plan_after_resolve(&outcome, 4_000),
        SchedulerDirective::ArmTimer {
            remind_at_ms: 10_000,
            delay_ms: 6_000
        }
    );
}

#[test]
fn due_candidate_fires_immediately() {
    let outcome = Ok(Some(candidate(10_000)));
    assert_eq!(
        plan_after_resolve(&outcome, 10_000),
        SchedulerDirective::FireNow {
            remind_at_ms: 10_000
        }
    );
    assert_eq!(
        plan_after_resolve(&outcome, 12_000),
        SchedulerDirective::FireNow {
            remind_at_ms: 10_000
        }
    );
}

#[test]
fn wakeup_during_a_sleep_means_reresolve_not_fire() {
    // A raised wakeup while armed abandons the candidate and re-resolves at
    // once, however long the timer had left.
    assert_eq!(
        plan_after_wait(WaitOutcome::WakeupSignaled),
        ArmedStep::Reresolve
    );
    assert_eq!(plan_after_wait(WaitOutcome::TimerElapsed), ArmedStep::Fire);
}

#[test]
fn wakeup_slot_coalesces_raises() {
    let mut slot = WakeupSlot::new();
    assert!(!slot.consume());

    slot.raise();
    slot.raise();
    slot.raise();
    assert!(slot.consume());
    assert!(!slot.consume());
}

#[test]
fn body_prefers_non_blank_detail() {
    assert_eq!(
        notification_body(
            &Some("bring the slides".to_string()),
            &Some("工作".to_string()),
            "2031-05-20",
            "12:00",
        ),
        "bring the slides"
    );
}

#[test]
fn blank_detail_falls_back_to_list_and_due() {
    assert_eq!(
        notification_body(
            &Some("   ".to_string()),
            &Some("工作".to_string()),
            "2031-05-20",
            "12:00",
        ),
        "工作 · 2031-05-20 12:00"
    );
    assert_eq!(
        notification_body(&None, &Some("工作".to_string()), "2031-05-20", "12:00"),
        "工作 · 2031-05-20 12:00"
    );
}

#[test]
fn no_list_drops_the_prefix() {
    assert_eq!(
        notification_body(&None, &None, "2031-05-20", "12:00"),
        "2031-05-20 12:00"
    );
}

#[test]
fn title_carries_the_reminder_prefix() {
    assert_eq!(notification_title("买菜"), "任务提醒：买菜");
}
