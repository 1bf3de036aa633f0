use linkflow::catalog::{default_lists, default_schemes};
use linkflow::commands::{
    delete_list_allowed, normalize_list_input, normalize_scheme_input, prepare_task_write,
};
use linkflow::daylist::{encode_days, parse_days};
use linkflow::model::{Reminder, RepeatRule};

#[test]
fn list_input_is_trimmed() {
    let (name, icon) = normalize_list_input("  groceries  ", " 🛒 ").unwrap();
    assert_eq!(name, "groceries");
    assert_eq!(icon, "🛒");
}

#[test]
fn blank_list_name_is_rejected() {
    assert_eq!(
        normalize_list_input("   ", "🛒"),
        Err("List name is required".to_string())
    );
    assert_eq!(
        normalize_list_input("", ""),
        Err("List name is required".to_string())
    );
}

#[test]
fn blank_list_icon_gets_the_default() {
    let (_, icon) = normalize_list_input("groceries", "  ").unwrap();
    assert_eq!(icon, "🗂️");
}

#[test]
fn scheme_input_normalizes_fields() {
    let f = normalize_scheme_input(
        " call ",
        "  ",
        " tel://{param} ",
        Some("shell".to_string()),
        " number ",
    )
    .unwrap();
    assert_eq!(f.name, "call");
    assert_eq!(f.icon, "🔗");
    assert_eq!(f.template, "tel://{param}");
    assert_eq!(f.kind, "url");
    assert_eq!(f.param_type, "number");

    let g = normalize_scheme_input("call", "📞", "tel://{param}", None, "whatever").unwrap();
    assert_eq!(g.icon, "📞");
    assert_eq!(g.param_type, "string");
}

#[test]
fn scheme_needs_name_and_template() {
    assert_eq!(
        normalize_scheme_input(" ", "i", "tel://{param}", None, "string"),
        Err("Scheme name and template are required".to_string())
    );
    assert_eq!(
        normalize_scheme_input("call", "i", "  ", None, "string"),
        Err("Scheme name and template are required".to_string())
    );
}

#[test]
fn task_write_trims_and_encodes() {
    let reminder = Some(Reminder {
        reminder_type: "relative".to_string(),
        offset_minutes: 15,
    });
    let rule = Some(RepeatRule {
        rule_type: "weekly".to_string(),
        day_of_week: Some(vec![1, 3]),
        day_of_month: None,
    });
    let w = prepare_task_write(" buy milk ", Some("  note  ".to_string()), &reminder, &rule)
        .unwrap();
    assert_eq!(w.title, "buy milk");
    assert_eq!(w.detail, Some("note".to_string()));
    assert_eq!(w.reminder_enabled, Some(1));
    assert_eq!(w.reminder_offset_minutes, Some(15));
    assert_eq!(w.repeat_type, Some("weekly".to_string()));
    assert_eq!(w.repeat_day_of_week, Some("[1,3]".to_string()));
    assert_eq!(w.repeat_day_of_month, None);
}

#[test]
fn blank_detail_becomes_none() {
    let w = prepare_task_write("title", Some("   ".to_string()), &None, &None).unwrap();
    assert_eq!(w.detail, None);
    assert_eq!(w.reminder_enabled, None);
    assert_eq!(w.repeat_type, None);
}

#[test]
fn blank_title_is_rejected_after_rule_and_reminder() {
    assert!(matches!(
        prepare_task_write("  ", None, &None, &None),
        Err(e) if e == "Task title is required"
    ));

    // An invalid rule is reported before the blank title.
    let bad_rule = Some(RepeatRule {
        rule_type: "yearly".to_string(),
        day_of_week: None,
        day_of_month: None,
    });
    assert!(matches!(
        prepare_task_write("  ", None, &None, &bad_rule),
        Err(e) if e == "Unsupported repeat type"
    ));

    // An invalid reminder is reported before the blank title too.
    let bad_reminder = Some(Reminder {
        reminder_type: "absolute".to_string(),
        offset_minutes: 1,
    });
    assert!(matches!(
        prepare_task_write("  ", None, &bad_reminder, &None),
        Err(e) if e == "Only relative reminders are supported"
    ));
}

#[test]
fn day_lists_encode_compactly() {
    assert_eq!(encode_days(&vec![]), "[]");
    assert_eq!(encode_days(&vec![0]), "[0]");
    assert_eq!(encode_days(&vec![1, 3]), "[1,3]");
    assert_eq!(encode_days(&vec![31]), "[31]");
    assert_eq!(encode_days(&vec![5, 15, 255]), "[5,15,255]");
}

#[test]
fn only_the_default_list_is_protected() {
    assert!(!delete_list_allowed("list_today"));
    assert!(delete_list_allowed("list_work"));
    assert!(delete_list_allowed("anything_else"));
}

#[test]
fn default_lists_seed_three_entries() {
    let lists = default_lists();
    assert_eq!(lists.len(), 3);
    assert_eq!(lists[0].id, "list_today");
    assert_eq!(lists[0].name, "所有任务");
    assert_eq!(lists[1].id, "list_work");
    assert_eq!(lists[2].id, "list_life");
}

#[test]
fn default_schemes_seed_seven_url_entries() {
    let schemes = default_schemes();
    assert_eq!(schemes.len(), 7);
    for s in &schemes {
        assert_eq!(s.kind, "url");
    }
    assert_eq!(schemes[0].id, "scheme_wemeet");
    assert_eq!(schemes[0].template, "wemeet://inmeeting?code={param}");
    assert_eq!(schemes[0].param_type, "number");
    assert_eq!(schemes[6].id, "scheme_macos_message");
}

#[test]
fn day_lists_read_back_from_their_text() {
    assert_eq!(parse_days("[]"), Some(vec![]));
    assert_eq!(parse_days("[0]"), Some(vec![0]));
    assert_eq!(parse_days("[1,3]"), Some(vec![1, 3]));
    assert_eq!(parse_days("[5,15,255]"), Some(vec![5, 15, 255]));
    for days in [vec![], vec![0], vec![1, 3], vec![31], vec![9, 10, 99, 100, 255]] {
        assert_eq!(parse_days(&encode_days(&days)), Some(days));
    }
}

#[test]
fn day_list_reader_rejects_other_shapes() {
    assert_eq!(parse_days(""), None);
    assert_eq!(parse_days("1,3"), None);
    assert_eq!(parse_days("[1,3"), None);
    assert_eq!(parse_days("[1,,3]"), None);
    assert_eq!(parse_days("[01]"), None);
    assert_eq!(parse_days("[256]"), None);
    assert_eq!(parse_days("[1, 3]"), None);
    assert_eq!(parse_days("[a]"), None);
    assert_eq!(parse_days("[,]"), None);
    assert_eq!(parse_days("[5,]"), None);
    assert_eq!(parse_days("[,5]"), None);
}
