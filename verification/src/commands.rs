//! The pure side of the command boundary: what each mutating command
//! validates and normalizes before anything is written to the store.
//!
//! Identifiers and the writes themselves belong to the caller; these
//! functions take the raw input texts and either reject them with the
//! boundary's error or hand back the exact field values to persist.

use vstd::prelude::*;

verus! {

use crate::daylist::{days_json_text, encode_days};
use crate::model::{Reminder, RepeatRule};
use crate::rules::{
    clamp_non_negative,
    reminder_report,
    reminder_to_db,
    repeat_rule_report,
    validate_repeat_rule,
    normalize_scheme_kind,
};
use crate::strings::{str_eq, trim_of, trim_str};

/// A list's fields as they are persisted: the trimmed name and the icon,
/// with the default icon for a blank one.
pub fn normalize_list_input(name: &str, icon: &str) -> (r: Result<(String, String), String>)
    ensures
        trim_of(name@).len() == 0 ==> (r matches Err(e) && e@ == "List name is required"@),
        trim_of(name@).len() > 0 ==> (r matches Ok(p) && p.0@ == trim_of(name@) && p.1@ == (
        if trim_of(icon@).len() == 0 {
            "🗂️"@
        } else {
            trim_of(icon@)
        })),
{
    let name_t: &str = trim_str(name);
    let icon_t: &str = trim_str(icon);
    if name_t.is_empty() {
        return Err("List name is required".to_owned());
    }
    let icon_v: String = if icon_t.is_empty() {
        "🗂️".to_owned()
    } else {
        icon_t.to_owned()
    };
    Ok((name_t.to_owned(), icon_v))
}

/// A scheme's fields as they are persisted.
#[derive(Debug, PartialEq)]
pub struct SchemeFields {
    pub name: String,
    pub icon: String,
    pub template: String,
    pub kind: String,
    pub param_type: String,
}

/// A scheme's fields: trimmed name and template, both required; the default
/// icon for a blank one; the kind collapsed to `url`; and the parameter
/// type `number` kept, anything else read as `string`.
pub fn normalize_scheme_input(
    name: &str,
    icon: &str,
    template: &str,
    kind: Option<String>,
    param_type: &str,
) -> (r: Result<SchemeFields, String>)
    ensures
        trim_of(name@).len() == 0 || trim_of(template@).len() == 0 ==> (r matches Err(e) && e@
            == "Scheme name and template are required"@),
        trim_of(name@).len() > 0 && trim_of(template@).len() > 0 ==> (r matches Ok(f) && f.name@
            == trim_of(name@) && f.icon@ == (
        if trim_of(icon@).len() == 0 {
            "🔗"@
        } else {
            trim_of(icon@)
        }) && f.template@ == trim_of(template@) && f.kind@ == "url"@ && f.param_type@ == (
        if trim_of(param_type@) == "number"@ {
            "number"@
        } else {
            "string"@
        })),
{
    let name_t: &str = trim_str(name);
    let icon_t: &str = trim_str(icon);
    let template_t: &str = trim_str(template);
    if name_t.is_empty() || template_t.is_empty() {
        return Err("Scheme name and template are required".to_owned());
    }
    Ok(
        SchemeFields {
            name: name_t.to_owned(),
            icon: if icon_t.is_empty() {
                "🔗".to_owned()
            } else {
                icon_t.to_owned()
            },
            template: template_t.to_owned(),
            kind: normalize_scheme_kind(kind),
            param_type: if str_eq(trim_str(param_type), "number") {
                "number".to_owned()
            } else {
                "string".to_owned()
            },
        },
    )
}

/// A task's validated and encoded fields, ready to be written to the store.
#[derive(Debug, PartialEq)]
pub struct TaskWrite {
    pub title: String,
    pub detail: Option<String>,
    pub reminder_enabled: Option<i64>,
    pub reminder_offset_minutes: Option<i64>,
    pub repeat_type: Option<String>,
    pub repeat_day_of_week: Option<String>,
    pub repeat_day_of_month: Option<String>,
}

/// What a prepared task write holds, given the inputs it was made from.
pub open spec fn task_write_matches(
    w: TaskWrite,
    title: Seq<char>,
    detail: Option<String>,
    reminder: Option<Reminder>,
    repeat_rule: Option<RepeatRule>,
) -> bool {
    &&& w.title@ == trim_of(title)
    &&& match detail {
        None => w.detail is None,
        Some(d) => if trim_of(d@).len() == 0 {
            w.detail is None
        } else {
            w.detail matches Some(t) && t@ == trim_of(d@)
        },
    }
    &&& match reminder {
        None => w.reminder_enabled is None && w.reminder_offset_minutes is None,
        Some(v) => w.reminder_enabled == Some(1i64) && w.reminder_offset_minutes == Some(
            clamp_non_negative(v.offset_minutes as int) as i64,
        ),
    }
    &&& match repeat_rule {
        None => w.repeat_type is None && w.repeat_day_of_week is None && w.repeat_day_of_month
            is None,
        Some(ru) => {
            &&& w.repeat_type matches Some(t) && t@ == ru.rule_type@
            &&& match ru.day_of_week {
                Some(d) => w.repeat_day_of_week matches Some(j) && j@ == days_json_text(d@),
                None => w.repeat_day_of_week is None,
            }
            &&& match ru.day_of_month {
                Some(d) => w.repeat_day_of_month matches Some(j) && j@ == days_json_text(d@),
                None => w.repeat_day_of_month is None,
            }
        },
    }
}

/// Validates and encodes a task for writing: the repeat rule is checked
/// first, then the reminder, then the title; the first failure is the
/// command's error. On success the title and detail are trimmed — a blank
/// detail becomes none — the reminder becomes its two stored columns, and
/// the repeat day lists become their stored texts.
pub fn prepare_task_write(
    title: &str,
    detail: Option<String>,
    reminder: &Option<Reminder>,
    repeat_rule: &Option<RepeatRule>,
) -> (r: Result<TaskWrite, String>)
    ensures
        match repeat_rule_report(*repeat_rule) {
            Some(m) => r matches Err(e) && e@ == m,
            None => match reminder_report(*reminder) {
                Some(m) => r matches Err(e) && e@ == m,
                None => if trim_of(title@).len() == 0 {
                    r matches Err(e) && e@ == "Task title is required"@
                } else {
                    r matches Ok(w) && task_write_matches(
                        w,
                        title@,
                        detail,
                        *reminder,
                        *repeat_rule,
                    )
                },
            },
        },
{
    validate_repeat_rule(repeat_rule)?;
    let (reminder_enabled, reminder_offset_minutes) = reminder_to_db(reminder)?;

    let title_t: &str = trim_str(title);
    if title_t.is_empty() {
        return Err("Task title is required".to_owned());
    }

    let detail_v: Option<String> = match detail {
        Some(d) => {
            let t: &str = trim_str(d.as_str());
            if t.is_empty() {
                None
            } else {
                Some(t.to_owned())
            }
        },
        None => None,
    };

    let (repeat_type, repeat_day_of_week, repeat_day_of_month): (
        Option<String>,
        Option<String>,
        Option<String>,
    ) = match repeat_rule {
        Some(ru) => (
            Some(ru.rule_type.clone()),
            match &ru.day_of_week {
                Some(d) => Some(encode_days(d)),
                None => None,
            },
            match &ru.day_of_month {
                Some(d) => Some(encode_days(d)),
                None => None,
            },
        ),
        None => (None, None, None),
    };

    Ok(
        TaskWrite {
            title: title_t.to_owned(),
            detail: detail_v,
            reminder_enabled,
            reminder_offset_minutes,
            repeat_type,
            repeat_day_of_week,
            repeat_day_of_month,
        },
    )
}

/// Whether a list may be deleted: every list but the built-in default.
pub fn delete_list_allowed(list_id: &str) -> (r: bool)
    ensures
        r == (list_id@ != "list_today"@),
{
    !str_eq(list_id, "list_today")
}

} // verus!
