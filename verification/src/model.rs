//! The task manager's data types as the engine sees them.
//!
//! These are plain records: every field is a string, an integer, a flag or a
//! list of such. The store keeps them, the engine reads them; contracts speak
//! of them through the views of their fields.

use vstd::prelude::*;

verus! {

/// A reminder attached to a task; only the relative kind is supported.
#[derive(Clone, Debug, PartialEq)]
pub struct Reminder {
    pub reminder_type: String,
    pub offset_minutes: i64,
}

/// A repeat rule: `daily`, `weekly` over weekdays, or `monthly` over days of
/// the month.
#[derive(Clone, Debug, PartialEq)]
pub struct RepeatRule {
    pub rule_type: String,
    pub day_of_week: Option<Vec<u8>>,
    pub day_of_month: Option<Vec<u8>>,
}

/// One action bound to a task: a scheme and its parameters.
#[derive(Clone, Debug, PartialEq)]
pub struct TaskActionBinding {
    pub scheme_id: String,
    pub params: Vec<String>,
}

/// A task list.
#[derive(Clone, Debug, PartialEq)]
pub struct ListItem {
    pub id: String,
    pub name: String,
    pub icon: String,
}

/// A URL scheme that task actions can invoke.
#[derive(Clone, Debug, PartialEq)]
pub struct UrlScheme {
    pub id: String,
    pub name: String,
    pub icon: String,
    pub template: String,
    pub kind: String,
    pub param_type: String,
}

/// A task as stored: optional due date (`YYYY-MM-DD`), optional due time
/// (`HH:MM`), optional reminder and repeat rule.
#[derive(Clone, Debug, PartialEq)]
pub struct TaskItem {
    pub id: String,
    pub list_id: Option<String>,
    pub title: String,
    pub detail: Option<String>,
    pub completed: bool,
    pub due_date: Option<String>,
    pub time: Option<String>,
    pub reminder: Option<Reminder>,
    pub repeat_rule: Option<RepeatRule>,
    pub actions: Option<Vec<TaskActionBinding>>,
}

} // verus!
