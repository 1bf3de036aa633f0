//! Boundary rules for reminders and repeat rules.
//!
//! Invalid repeat rules and unsupported reminder kinds are rejected here,
//! before anything reaches the store; reminders are normalized to the
//! relative kind with a non-negative offset, and translated to and from
//! their two stored columns.

use vstd::prelude::*;

verus! {

use crate::model::{Reminder, RepeatRule};
use crate::strings::str_eq;

/// The reminder offset, in minutes, that a bare "on" toggle stands for.
pub const DEFAULT_REMINDER_OFFSET_MINUTES: i64 = 10;

pub open spec fn clamp_non_negative(v: int) -> int {
    if v >= 0 {
        v
    } else {
        0
    }
}

/// A weekly rule needs at least one weekday, each between 0 and 6.
pub open spec fn weekly_days_valid(days: Seq<u8>) -> bool {
    days.len() > 0 && (forall|i: int| 0 <= i < days.len() ==> days[i] <= 6)
}

/// A monthly rule needs at least one day of the month, each between 1 and 31.
pub open spec fn monthly_days_valid(days: Seq<u8>) -> bool {
    days.len() > 0 && (forall|i: int| 0 <= i < days.len() ==> 1 <= days[i] && days[i] <= 31)
}

/// A repeat rule the store accepts.
pub open spec fn repeat_rule_valid(r: RepeatRule) -> bool {
    if r.rule_type@ == "daily"@ {
        true
    } else if r.rule_type@ == "weekly"@ {
        r.day_of_week matches Some(d) && weekly_days_valid(d@)
    } else if r.rule_type@ == "monthly"@ {
        r.day_of_month matches Some(d) && monthly_days_valid(d@)
    } else {
        false
    }
}

/// Why a repeat rule is rejected, or nothing when it is accepted.
pub open spec fn repeat_rule_report(rule: Option<RepeatRule>) -> Option<Seq<char>> {
    match rule {
        None => None,
        Some(ru) => if ru.rule_type@ == "daily"@ {
            None
        } else if ru.rule_type@ == "weekly"@ {
            match ru.day_of_week {
                Some(d) => if d@.len() == 0 {
                    Some("Weekly repeat must contain at least one weekday"@)
                } else if !weekly_days_valid(d@) {
                    Some("Weekly repeat day must be between 0 and 6"@)
                } else {
                    None
                },
                None => Some("Weekly repeat must contain at least one weekday"@),
            }
        } else if ru.rule_type@ == "monthly"@ {
            match ru.day_of_month {
                Some(d) => if d@.len() == 0 {
                    Some("Monthly repeat must contain at least one day"@)
                } else if !monthly_days_valid(d@) {
                    Some("Monthly repeat day must be between 1 and 31"@)
                } else {
                    None
                },
                None => Some("Monthly repeat must contain at least one day"@),
            }
        } else {
            Some("Unsupported repeat type"@)
        },
    }
}

/// Why a reminder is rejected, or nothing when it is accepted.
pub open spec fn reminder_report(rem: Option<Reminder>) -> Option<Seq<char>> {
    match rem {
        None => None,
        Some(v) => if v.reminder_type@ == "relative"@ {
            None
        } else {
            Some("Only relative reminders are supported"@)
        },
    }
}

fn all_at_most(days: &Vec<u8>, hi: u8) -> (r: bool)
    ensures
        r == forall|i: int| 0 <= i < days@.len() ==> days@[i] <= hi,
{
    let mut k: usize = 0;
    while k < days.len()
        invariant
            k <= days@.len(),
            forall|i: int| 0 <= i < k ==> days@[i] <= hi,
        decreases days@.len() - k,
    {
        if days[k] > hi {
            return false;
        }
        k = k + 1;
    }
    true
}

fn all_in_month_range(days: &Vec<u8>) -> (r: bool)
    ensures
        r == forall|i: int| 0 <= i < days@.len() ==> 1 <= days@[i] && days@[i] <= 31,
{
    let mut k: usize = 0;
    while k < days.len()
        invariant
            k <= days@.len(),
            forall|i: int| 0 <= i < k ==> 1 <= days@[i] && days@[i] <= 31,
        decreases days@.len() - k,
    {
        if days[k] == 0 || days[k] > 31 {
            return false;
        }
        k = k + 1;
    }
    true
}

/// Accepts a repeat rule, or says why it is rejected: weekly rules need
/// weekdays 0 to 6, monthly rules days 1 to 31, and no other kind exists.
pub fn validate_repeat_rule(rule: &Option<RepeatRule>) -> (r: Result<(), String>)
    ensures
        r is Ok <==> match rule {
            Some(ru) => repeat_rule_valid(*ru),
            None => true,
        },
        r is Ok <==> repeat_rule_report(*rule) is None,
        r matches Err(e) ==> repeat_rule_report(*rule) matches Some(m) && e@ == m,
{
    match rule {
        Some(ru) => {
            if str_eq(ru.rule_type.as_str(), "daily") {
                Ok(())
            } else if str_eq(ru.rule_type.as_str(), "weekly") {
                match &ru.day_of_week {
                    Some(days) => {
                        if days.len() == 0 {
                            Err("Weekly repeat must contain at least one weekday".to_owned())
                        } else if !all_at_most(days, 6) {
                            Err("Weekly repeat day must be between 0 and 6".to_owned())
                        } else {
                            Ok(())
                        }
                    },
                    None => Err("Weekly repeat must contain at least one weekday".to_owned()),
                }
            } else if str_eq(ru.rule_type.as_str(), "monthly") {
                match &ru.day_of_month {
                    Some(days) => {
                        if days.len() == 0 {
                            Err("Monthly repeat must contain at least one day".to_owned())
                        } else if !all_in_month_range(days) {
                            Err("Monthly repeat day must be between 1 and 31".to_owned())
                        } else {
                            Ok(())
                        }
                    },
                    None => Err("Monthly repeat must contain at least one day".to_owned()),
                }
            } else {
                Err("Unsupported repeat type".to_owned())
            }
        },
        None => Ok(()),
    }
}

/// Keeps only relative reminders and clamps their offset to be
/// non-negative; any other reminder kind is rejected.
pub fn normalize_relative_reminder(reminder: &Option<Reminder>) -> (r: Result<
    Option<Reminder>,
    String,
>)
    ensures
        r is Err <==> reminder_report(*reminder) is Some,
        r matches Err(e) ==> reminder_report(*reminder) matches Some(m) && e@ == m,
        match reminder {
            None => r matches Ok(o) && o is None,
            Some(v) => if v.reminder_type@ == "relative"@ {
                r matches Ok(o) && o matches Some(n) && n.reminder_type@ == "relative"@
                    && n.offset_minutes == clamp_non_negative(v.offset_minutes as int)
            } else {
                r is Err
            },
        },
{
    match reminder {
        Some(value) => {
            if !str_eq(value.reminder_type.as_str(), "relative") {
                Err("Only relative reminders are supported".to_owned())
            } else {
                let offset: i64 = if value.offset_minutes >= 0 {
                    value.offset_minutes
                } else {
                    0
                };
                Ok(Some(Reminder { reminder_type: "relative".to_owned(), offset_minutes: offset }))
            }
        },
        None => Ok(None),
    }
}

/// Translates a reminder to its two stored columns: an enabled flag and the
/// clamped offset, both absent when there is no reminder.
pub fn reminder_to_db(reminder: &Option<Reminder>) -> (r: Result<(Option<i64>, Option<i64>), String>)
    ensures
        r is Err <==> reminder_report(*reminder) is Some,
        r matches Err(e) ==> reminder_report(*reminder) matches Some(m) && e@ == m,
        match reminder {
            None => r matches Ok(p) && p.0 is None && p.1 is None,
            Some(v) => if v.reminder_type@ == "relative"@ {
                r matches Ok(p) && p.0 == Some(1i64) && p.1 == Some(
                    clamp_non_negative(v.offset_minutes as int) as i64,
                )
            } else {
                r is Err
            },
        },
{
    let normalized = normalize_relative_reminder(reminder)?;
    match normalized {
        Some(value) => Ok((Some(1), Some(value.offset_minutes))),
        None => Ok((None, None)),
    }
}

/// Reads a reminder back from its two stored columns: a zero or absent flag
/// means none, and a missing offset falls back to the default.
pub fn reminder_from_db(enabled: Option<i64>, offset: Option<i64>) -> (r: Option<Reminder>)
    ensures
        match enabled {
            None => r is None,
            Some(flag) => if flag == 0 {
                r is None
            } else {
                r matches Some(n) && n.reminder_type@ == "relative"@ && n.offset_minutes
                    == clamp_non_negative(
                    match offset {
                        Some(o) => o as int,
                        None => DEFAULT_REMINDER_OFFSET_MINUTES as int,
                    },
                )
            },
        },
{
    let flag: i64 = match enabled {
        Some(v) => v,
        None => 0,
    };
    if flag == 0 {
        return None;
    }
    let raw: i64 = match offset {
        Some(v) => v,
        None => DEFAULT_REMINDER_OFFSET_MINUTES,
    };
    Some(
        Reminder {
            reminder_type: "relative".to_owned(),
            offset_minutes: if raw >= 0 {
                raw
            } else {
                0
            },
        },
    )
}

/// A bare "reminder on/off" toggle read at the boundary: on means a relative
/// reminder at the default offset.
pub fn reminder_from_toggle(enabled: bool) -> (r: Option<Reminder>)
    ensures
        enabled ==> (r matches Some(n) && n.reminder_type@ == "relative"@ && n.offset_minutes
            == DEFAULT_REMINDER_OFFSET_MINUTES),
        !enabled ==> r is None,
{
    if enabled {
        Some(
            Reminder {
                reminder_type: "relative".to_owned(),
                offset_minutes: DEFAULT_REMINDER_OFFSET_MINUTES,
            },
        )
    } else {
        None
    }
}

/// Every scheme kind collapses to `url`; no other kind is kept.
pub fn normalize_scheme_kind(kind: Option<String>) -> (r: String)
    ensures
        r@ == "url"@,
{
    let _ = kind;
    "url".to_owned()
}

} // verus!
