use linkflow::model::{Reminder, RepeatRule};
use linkflow::rules::{
    normalize_relative_reminder, normalize_scheme_kind, reminder_from_db, reminder_from_toggle,
    reminder_to_db, validate_repeat_rule,
};

fn rule(rule_type: &str, dow: Option<Vec<u8>>, dom: Option<Vec<u8>>) -> Option<RepeatRule> {
    Some(RepeatRule {
        rule_type: rule_type.to_string(),
        day_of_week: dow,
        day_of_month: dom,
    })
}

#[test]
fn no_rule_is_accepted() {
    assert_eq!(validate_repeat_rule(&None), Ok(()));
}

#[test]
fn daily_is_accepted() {
    assert_eq!(validate_repeat_rule(&rule("daily", None, None)), Ok(()));
}

#[test]
fn weekly_needs_days() {
    assert_eq!(
        validate_repeat_rule(&rule("weekly", None, None)),
        Err("Weekly repeat must contain at least one weekday".to_string())
    );
    assert_eq!(
        validate_repeat_rule(&rule("weekly", Some(vec![]), None)),
        Err("Weekly repeat must contain at least one weekday".to_string())
    );
}

#[test]
fn weekly_days_must_be_weekdays() {
    assert_eq!(
        validate_repeat_rule(&rule("weekly", Some(vec![1, 7]), None)),
        Err("Weekly repeat day must be between 0 and 6".to_string())
    );
    assert_eq!(
        validate_repeat_rule(&rule("weekly", Some(vec![0, 6]), None)),
        Ok(())
    );
}

#[test]
fn monthly_needs_days() {
    assert_eq!(
        validate_repeat_rule(&rule("monthly", None, None)),
        Err("Monthly repeat must contain at least one day".to_string())
    );
    assert_eq!(
        validate_repeat_rule(&rule("monthly", None, Some(vec![]))),
        Err("Monthly repeat must contain at least one day".to_string())
    );
}

#[test]
fn monthly_days_must_fit_a_month() {
    assert_eq!(
        validate_repeat_rule(&rule("monthly", None, Some(vec![0]))),
        Err("Monthly repeat day must be between 1 and 31".to_string())
    );
    assert_eq!(
        validate_repeat_rule(&rule("monthly", None, Some(vec![32]))),
        Err("Monthly repeat day must be between 1 and 31".to_string())
    );
    assert_eq!(
        validate_repeat_rule(&rule("monthly", None, Some(vec![1, 31]))),
        Ok(())
    );
}

#[test]
fn unknown_rule_kind_is_rejected() {
    assert_eq!(
        validate_repeat_rule(&rule("yearly", None, None)),
        Err("Unsupported repeat type".to_string())
    );
}

#[test]
fn relative_reminder_is_normalized() {
    let input = Some(Reminder {
        reminder_type: "relative".to_string(),
        offset_minutes: 25,
    });
    let out = normalize_relative_reminder(&input).unwrap().unwrap();
    assert_eq!(out.reminder_type, "relative");
    assert_eq!(out.offset_minutes, 25);
}

#[test]
fn negative_offset_clamps_to_zero() {
    let input = Some(Reminder {
        reminder_type: "relative".to_string(),
        offset_minutes: -5,
    });
    let out = normalize_relative_reminder(&input).unwrap().unwrap();
    assert_eq!(out.offset_minutes, 0);
}

#[test]
fn absolute_reminder_is_rejected() {
    let input = Some(Reminder {
        reminder_type: "absolute".to_string(),
        offset_minutes: 5,
    });
    assert_eq!(
        normalize_relative_reminder(&input),
        Err("Only relative reminders are supported".to_string())
    );
}

#[test]
fn missing_reminder_normalizes_to_none() {
    assert_eq!(normalize_relative_reminder(&None), Ok(None));
}

#[test]
fn reminder_columns_round_out() {
    assert_eq!(reminder_to_db(&None), Ok((None, None)));
    let input = Some(Reminder {
        reminder_type: "relative".to_string(),
        offset_minutes: 15,
    });
    assert_eq!(reminder_to_db(&input), Ok((Some(1), Some(15))));
    let bad = Some(Reminder {
        reminder_type: "absolute".to_string(),
        offset_minutes: 15,
    });
    assert_eq!(
        reminder_to_db(&bad),
        Err("Only relative reminders are supported".to_string())
    );
}

#[test]
fn reminder_reads_back_from_columns() {
    assert_eq!(reminder_from_db(None, Some(5)), None);
    assert_eq!(reminder_from_db(Some(0), Some(5)), None);

    let on = reminder_from_db(Some(1), Some(5)).unwrap();
    assert_eq!(on.reminder_type, "relative");
    assert_eq!(on.offset_minutes, 5);

    let defaulted = reminder_from_db(Some(1), None).unwrap();
    assert_eq!(defaulted.offset_minutes, 10);

    let clamped = reminder_from_db(Some(1), Some(-3)).unwrap();
    assert_eq!(clamped.offset_minutes, 0);
}

#[test]
fn toggle_reads_as_default_relative_reminder() {
    let on = reminder_from_toggle(true).unwrap();
    assert_eq!(on.reminder_type, "relative");
    assert_eq!(on.offset_minutes, 10);
    assert_eq!(reminder_from_toggle(false), None);
}

#[test]
fn scheme_kind_collapses_to_url() {
    assert_eq!(normalize_scheme_kind(None), "url");
    assert_eq!(normalize_scheme_kind(Some("shell".to_string())), "url");
    assert_eq!(normalize_scheme_kind(Some("url".to_string())), "url");
}
