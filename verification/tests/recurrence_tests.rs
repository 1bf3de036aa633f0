use linkflow::model::{RepeatRule, TaskItem};
use linkflow::recurrence::{completion_spawn_due_date, compute_next_repeat_date};

fn task_with(due_date: &str, rule_type: &str, dow: Option<Vec<u8>>, dom: Option<Vec<u8>>) -> TaskItem {
    TaskItem {
        id: "task_1".to_string(),
        list_id: None,
        title: "task".to_string(),
        detail: None,
        completed: false,
        due_date: Some(due_date.to_string()),
        time: None,
        reminder: None,
        repeat_rule: Some(RepeatRule {
            rule_type: rule_type.to_string(),
            day_of_week: dow,
            day_of_month: dom,
        }),
        actions: None,
    }
}

#[test]
fn daily_advances_one_day() {
    let task = task_with("2024-01-31", "daily", None, None);
    assert_eq!(compute_next_repeat_date(&task), Some("2024-02-01".to_string()));
}

#[test]
fn daily_across_year_end() {
    let task = task_with("2023-12-31", "daily", None, None);
    assert_eq!(compute_next_repeat_date(&task), Some("2024-01-01".to_string()));
}

#[test]
fn weekly_wraps_to_next_monday() {
    // 2024-01-03 is a Wednesday (day 3); rule days Monday and Wednesday.
    let task = task_with("2024-01-03", "weekly", Some(vec![1, 3]), None);
    assert_eq!(compute_next_repeat_date(&task), Some("2024-01-08".to_string()));
}

#[test]
fn weekly_moves_to_later_day_in_same_week() {
    // From Monday 2024-01-01 with days Monday and Wednesday: Wednesday wins.
    let task = task_with("2024-01-01", "weekly", Some(vec![1, 3]), None);
    assert_eq!(compute_next_repeat_date(&task), Some("2024-01-03".to_string()));
}

#[test]
fn weekly_same_single_day_advances_a_full_week() {
    // From Wednesday with only Wednesday listed: a full week ahead.
    let task = task_with("2024-01-03", "weekly", Some(vec![3]), None);
    assert_eq!(compute_next_repeat_date(&task), Some("2024-01-10".to_string()));
}

#[test]
fn weekly_day_order_does_not_matter() {
    let task = task_with("2024-01-03", "weekly", Some(vec![3, 1]), None);
    assert_eq!(compute_next_repeat_date(&task), Some("2024-01-08".to_string()));
}

#[test]
fn monthly_skips_months_without_the_day() {
    // From the end of January, day 31: February has no 31st, March does.
    let task = task_with("2024-01-31", "monthly", None, Some(vec![31]));
    assert_eq!(compute_next_repeat_date(&task), Some("2024-03-31".to_string()));
}

#[test]
fn monthly_takes_a_valid_later_day_in_the_current_month() {
    // Day 31 is still ahead within January itself.
    let task = task_with("2024-01-15", "monthly", None, Some(vec![31]));
    assert_eq!(compute_next_repeat_date(&task), Some("2024-01-31".to_string()));
}

#[test]
fn monthly_moves_to_next_month_when_day_has_passed() {
    let task = task_with("2024-01-10", "monthly", None, Some(vec![5]));
    assert_eq!(compute_next_repeat_date(&task), Some("2024-02-05".to_string()));
}

#[test]
fn monthly_leap_day_waits_for_leap_february() {
    // Day 30 never exists in February; from late January the scan lands in March.
    let task = task_with("2024-01-30", "monthly", None, Some(vec![30]));
    assert_eq!(compute_next_repeat_date(&task), Some("2024-03-30".to_string()));
}

#[test]
fn no_rule_or_date_yields_nothing() {
    let mut task = task_with("2024-01-03", "daily", None, None);
    task.repeat_rule = None;
    assert_eq!(compute_next_repeat_date(&task), None);

    let mut task = task_with("2024-01-03", "daily", None, None);
    task.due_date = None;
    assert_eq!(compute_next_repeat_date(&task), None);

    let task = task_with("not-a-date", "daily", None, None);
    assert_eq!(compute_next_repeat_date(&task), None);
}

#[test]
fn unknown_rule_kind_yields_nothing() {
    let task = task_with("2024-01-03", "yearly", None, None);
    assert_eq!(compute_next_repeat_date(&task), None);
}

#[test]
fn empty_day_lists_yield_nothing() {
    let task = task_with("2024-01-03", "weekly", Some(vec![]), None);
    assert_eq!(compute_next_repeat_date(&task), None);
    let task = task_with("2024-01-03", "monthly", None, Some(vec![]));
    assert_eq!(compute_next_repeat_date(&task), None);
}

#[test]
fn completion_spawns_only_from_incomplete() {
    let task = task_with("2024-01-31", "daily", None, None);
    assert_eq!(
        completion_spawn_due_date(&task),
        Some("2024-02-01".to_string())
    );

    let mut done = task_with("2024-01-31", "daily", None, None);
    done.completed = true;
    assert_eq!(completion_spawn_due_date(&done), None);
}
