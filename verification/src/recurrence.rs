//! The recurrence engine: the next due date of a repeating task.
//!
//! `daily` moves one day forward. `weekly` picks the smallest listed weekday
//! strictly after today's, or wraps into the next week to the smallest listed
//! weekday. `monthly` picks the smallest listed day after the current one
//! that forms a real date in the current month, and otherwise scans forward
//! month by month, at most twenty-four, for the first listed day that forms a
//! real date — days that do not exist in a month are skipped, never clamped.

use vstd::prelude::*;

verus! {

use crate::dates::{
    add_days,
    add_days_spec,
    lemma_add_days_index,
    lemma_date_lt_index,
    lemma_next_day_index,
    date_lt,
    date_text,
    date_valid,
    day_index_spec,
    days_in_month_spec,
    format_date,
    next_day,
    next_day_spec,
    parse_date_text,
    parse_date_ymd,
    weekday,
    weekday_spec,
    Date,
};
use crate::model::TaskItem;
use crate::strings::str_eq;

/// How many months ahead a monthly rule is searched before giving up.
pub const MONTHLY_SCAN_BOUND: u8 = 24;

/// The smallest listed day strictly above `today`, if any.
pub open spec fn least_day_above(days: Seq<u8>, today: u8) -> Option<u8>
    decreases days.len(),
{
    if days.len() == 0 {
        None
    } else {
        let rest = least_day_above(days.drop_last(), today);
        let last = days.last();
        if last > today {
            match rest {
                Some(m) => if last < m {
                    Some(last)
                } else {
                    Some(m)
                },
                None => Some(last),
            }
        } else {
            rest
        }
    }
}

/// The smallest listed day.
pub open spec fn least_day(days: Seq<u8>) -> Option<u8>
    decreases days.len(),
{
    if days.len() == 0 {
        None
    } else {
        let rest = least_day(days.drop_last());
        let last = days.last();
        match rest {
            Some(m) => if last < m {
                Some(last)
            } else {
                Some(m)
            },
            None => Some(last),
        }
    }
}

/// Days until the next listed weekday: the gap to the smallest listed
/// weekday after today's, or a wrap into the next week.
pub open spec fn weekly_delta_spec(days: Seq<u8>, today: u8) -> int {
    match least_day_above(days, today) {
        Some(d) => d - today,
        None => match least_day(days) {
            Some(m) => 7 - today + m,
            None => 7,
        },
    }
}

/// The date a weekly rule moves to.
pub open spec fn weekly_next_spec(d: Date, days: Seq<u8>) -> Option<Date> {
    add_days_spec(d, weekly_delta_spec(days, weekday_spec(d) as u8) as nat)
}

/// The smallest listed day strictly above `lo` that exists in month `m` of
/// year `y`, if any.
pub open spec fn least_valid_day(days: Seq<u8>, y: int, m: int, lo: int) -> Option<u8>
    decreases days.len(),
{
    if days.len() == 0 {
        None
    } else {
        let rest = least_valid_day(days.drop_last(), y, m, lo);
        let last = days.last();
        if last > lo && last <= days_in_month_spec(y, m) {
            match rest {
                Some(x) => if last < x {
                    Some(last)
                } else {
                    Some(x)
                },
                None => Some(last),
            }
        } else {
            rest
        }
    }
}

/// The month-by-month search of a monthly rule, starting after month `m` of
/// year `y`, with `remaining` months left to look at.
pub open spec fn monthly_scan_spec(y: int, m: int, days: Seq<u8>, remaining: nat) -> Option<Date>
    decreases remaining,
{
    if remaining == 0 {
        None
    } else {
        let y2 = if m == 12 {
            y + 1
        } else {
            y
        };
        let m2 = if m == 12 {
            1
        } else {
            m + 1
        };
        if y2 > 9999 {
            None
        } else {
            match least_valid_day(days, y2, m2, 0) {
                Some(dd) => Some(Date { year: y2 as u16, month: m2 as u8, day: dd }),
                None => monthly_scan_spec(y2, m2, days, (remaining - 1) as nat),
            }
        }
    }
}

/// The date a monthly rule moves to.
pub open spec fn monthly_next_spec(d: Date, days: Seq<u8>) -> Option<Date> {
    match least_valid_day(days, d.year as int, d.month as int, d.day as int) {
        Some(dd) => Some(Date { year: d.year, month: d.month, day: dd }),
        None => monthly_scan_spec(d.year as int, d.month as int, days, MONTHLY_SCAN_BOUND as nat),
    }
}

/// The next due date of a task: what its repeat rule yields from its current
/// due date, or nothing when the task has no rule, no readable due date, an
/// empty day list, an unknown rule kind, or no reachable next date.
pub open spec fn next_due_date_spec(task: TaskItem) -> Option<Date> {
    match task.repeat_rule {
        None => None,
        Some(rule) => match task.due_date {
            None => None,
            Some(ds) => match parse_date_text(ds@) {
                None => None,
                Some(cur) => if rule.rule_type@ == "daily"@ {
                    next_day_spec(cur)
                } else if rule.rule_type@ == "weekly"@ {
                    match rule.day_of_week {
                        Some(days) => if days@.len() == 0 {
                            None
                        } else {
                            weekly_next_spec(cur, days@)
                        },
                        None => None,
                    }
                } else if rule.rule_type@ == "monthly"@ {
                    match rule.day_of_month {
                        Some(days) => if days@.len() == 0 {
                            None
                        } else {
                            monthly_next_spec(cur, days@)
                        },
                        None => None,
                    }
                } else {
                    None
                },
            },
        },
    }
}

fn min_above(days: &Vec<u8>, today: u8) -> (r: Option<u8>)
    ensures
        r == least_day_above(days@, today),
{
    let mut best: Option<u8> = None;
    let mut i: usize = 0;
    while i < days.len()
        invariant
            i <= days@.len(),
            best == least_day_above(days@.take(i as int), today),
        decreases days@.len() - i,
    {
        let d: u8 = days[i];
        proof {
            assert(days@.take(i + 1).drop_last() =~= days@.take(i as int));
            assert(days@.take(i + 1).last() == days@[i as int]);
        }
        best = match best {
            Some(b) => if d > today && d < b {
                Some(d)
            } else {
                Some(b)
            },
            None => if d > today {
                Some(d)
            } else {
                None
            },
        };
        i = i + 1;
    }
    proof {
        assert(days@.take(days@.len() as int) =~= days@);
    }
    best
}

fn min_of(days: &Vec<u8>) -> (r: Option<u8>)
    ensures
        r == least_day(days@),
{
    let mut best: Option<u8> = None;
    let mut i: usize = 0;
    while i < days.len()
        invariant
            i <= days@.len(),
            best == least_day(days@.take(i as int)),
        decreases days@.len() - i,
    {
        let d: u8 = days[i];
        proof {
            assert(days@.take(i + 1).drop_last() =~= days@.take(i as int));
            assert(days@.take(i + 1).last() == days@[i as int]);
        }
        best = match best {
            Some(b) => if d < b {
                Some(d)
            } else {
                Some(b)
            },
            None => Some(d),
        };
        i = i + 1;
    }
    proof {
        assert(days@.take(days@.len() as int) =~= days@);
    }
    best
}

fn min_valid(days: &Vec<u8>, y: u16, m: u8, lo: u8) -> (r: Option<u8>)
    ensures
        r == least_valid_day(days@, y as int, m as int, lo as int),
{
    let limit: u8 = crate::dates::days_in_month(y, m);
    let mut best: Option<u8> = None;
    let mut i: usize = 0;
    while i < days.len()
        invariant
            i <= days@.len(),
            limit == days_in_month_spec(y as int, m as int),
            best == least_valid_day(days@.take(i as int), y as int, m as int, lo as int),
        decreases days@.len() - i,
    {
        let d: u8 = days[i];
        proof {
            assert(days@.take(i + 1).drop_last() =~= days@.take(i as int));
            assert(days@.take(i + 1).last() == days@[i as int]);
        }
        if d > lo && d <= limit {
            best = match best {
                Some(b) => if d < b {
                    Some(d)
                } else {
                    Some(b)
                },
                None => Some(d),
            };
        }
        i = i + 1;
    }
    proof {
        assert(days@.take(days@.len() as int) =~= days@);
    }
    best
}

proof fn lemma_least_day_above_gt(days: Seq<u8>, today: u8)
    requires
        least_day_above(days, today) is Some,
    ensures
        least_day_above(days, today)->0 > today,
    decreases days.len(),
{
    if days.len() > 0 {
        if least_day_above(days.drop_last(), today) is Some {
            lemma_least_day_above_gt(days.drop_last(), today);
        }
    }
}

proof fn lemma_least_day_some(days: Seq<u8>)
    requires
        days.len() > 0,
    ensures
        least_day(days) is Some,
    decreases days.len(),
{
    if days.len() > 1 {
        lemma_least_day_some(days.drop_last());
    }
}

proof fn lemma_least_valid_day_range(days: Seq<u8>, y: int, m: int, lo: int)
    requires
        0 <= lo,
        least_valid_day(days, y, m, lo) is Some,
    ensures
        lo < least_valid_day(days, y, m, lo)->0 <= days_in_month_spec(y, m),
    decreases days.len(),
{
    if days.len() > 0 {
        if least_valid_day(days.drop_last(), y, m, lo) is Some {
            lemma_least_valid_day_range(days.drop_last(), y, m, lo);
        }
    }
}

/// Whatever a monthly scan finds is a real date in a strictly later month.
proof fn lemma_monthly_scan_valid(y: int, m: int, days: Seq<u8>, remaining: nat)
    requires
        1 <= m <= 12,
        0 <= y <= 9999,
        monthly_scan_spec(y, m, days, remaining) is Some,
    ensures
        date_valid(monthly_scan_spec(y, m, days, remaining)->0),
        ({
            let e = monthly_scan_spec(y, m, days, remaining)->0;
            (e.year as int) * 12 + e.month > y * 12 + m
        }),
    decreases remaining,
{
    let y2: int = if m == 12 {
        y + 1
    } else {
        y
    };
    let m2: int = if m == 12 {
        1
    } else {
        m + 1
    };
    if least_valid_day(days, y2, m2, 0) is Some {
        lemma_least_valid_day_range(days, y2, m2, 0);
    } else {
        lemma_monthly_scan_valid(y2, m2, days, (remaining - 1) as nat);
    }
}

/// Computes the next due date of a repeating task, as `YYYY-MM-DD` text.
pub fn compute_next_repeat_date(task: &TaskItem) -> (r: Option<String>)
    ensures
        match next_due_date_spec(*task) {
            Some(d) => r matches Some(s) && s@ == date_text(d) && date_valid(d),
            None => r is None,
        },
{
    let rule = match &task.repeat_rule {
        Some(rule) => rule,
        None => {
            return None;
        },
    };
    let due = match &task.due_date {
        Some(due) => due,
        None => {
            return None;
        },
    };
    let cur: Date = match parse_date_ymd(due.as_str()) {
        Some(cur) => cur,
        None => {
            return None;
        },
    };
    if str_eq(rule.rule_type.as_str(), "daily") {
        match next_day(cur) {
            Some(e) => Some(format_date(e)),
            None => None,
        }
    } else if str_eq(rule.rule_type.as_str(), "weekly") {
        let days = match &rule.day_of_week {
            Some(days) => days,
            None => {
                return None;
            },
        };
        if days.len() == 0 {
            return None;
        }
        let today: u8 = weekday(cur);
        let delta: u32 = match min_above(days, today) {
            Some(x) => {
                proof {
                    lemma_least_day_above_gt(days@, today);
                }
                (x - today) as u32
            },
            None => {
                proof {
                    lemma_least_day_some(days@);
                }
                let m: u8 = match min_of(days) {
                    Some(m) => m,
                    None => {
                        return None;  // unreachable: the day list is non-empty
                    },
                };
                (7 - today as u32) + m as u32
            },
        };
        match add_days(cur, delta) {
            Some(e) => Some(format_date(e)),
            None => None,
        }
    } else if str_eq(rule.rule_type.as_str(), "monthly") {
        let days = match &rule.day_of_month {
            Some(days) => days,
            None => {
                return None;
            },
        };
        if days.len() == 0 {
            return None;
        }
        if let Some(dd) = min_valid(days, cur.year, cur.month, cur.day) {
            proof {
                lemma_least_valid_day_range(days@, cur.year as int, cur.month as int, cur.day as int);
            }
            return Some(format_date(Date { year: cur.year, month: cur.month, day: dd }));
        }
        let mut y: u16 = cur.year;
        let mut m: u8 = cur.month;
        let mut k: u8 = 0;
        while k < MONTHLY_SCAN_BOUND
            invariant
                k <= MONTHLY_SCAN_BOUND,
                1 <= m <= 12,
                y <= 9999,
                next_due_date_spec(*task) == monthly_scan_spec(
                    y as int,
                    m as int,
                    days@,
                    (MONTHLY_SCAN_BOUND - k) as nat,
                ),
            decreases MONTHLY_SCAN_BOUND - k,
        {
            let y2: u16 = if m == 12 {
                y + 1
            } else {
                y
            };
            let m2: u8 = if m == 12 {
                1
            } else {
                m + 1
            };
            proof {
                assert(monthly_scan_spec(y as int, m as int, days@, (MONTHLY_SCAN_BOUND - k) as nat)
                    == if y2 as int > 9999 {
                    None::<Date>
                } else {
                    match least_valid_day(days@, y2 as int, m2 as int, 0) {
                        Some(dd) => Some(Date { year: y2, month: m2, day: dd }),
                        None => monthly_scan_spec(
                            y2 as int,
                            m2 as int,
                            days@,
                            (MONTHLY_SCAN_BOUND - k - 1) as nat,
                        ),
                    }
                });
            }
            if y2 > 9999 {
                return None;
            }
            if let Some(dd) = min_valid(days, y2, m2, 0) {
                proof {
                    lemma_least_valid_day_range(days@, y2 as int, m2 as int, 0);
                }
                return Some(format_date(Date { year: y2, month: m2, day: dd }));
            }
            y = y2;
            m = m2;
            k = k + 1;
        }
        None
    } else {
        None
    }
}

/// The due date of the sibling task spawned when a repeating task is
/// completed: only a transition from incomplete to completed spawns one,
/// and only when the rule yields a next date.
pub fn completion_spawn_due_date(task: &TaskItem) -> (r: Option<String>)
    ensures
        task.completed ==> r is None,
        !task.completed ==> match next_due_date_spec(*task) {
            Some(d) => r matches Some(s) && s@ == date_text(d),
            None => r is None,
        },
{
    if task.completed {
        None
    } else {
        compute_next_repeat_date(task)
    }
}

/// A repeat rule always moves the due date strictly forward: whatever date
/// the rule yields lies after the task's current due date in calendar order.
pub proof fn lemma_next_due_advances(task: TaskItem)
    requires
        next_due_date_spec(task) is Some,
    ensures
        ({
            let cur = parse_date_text((task.due_date->0)@)->0;
            let nxt = next_due_date_spec(task)->0;
            date_lt(cur, nxt) && date_valid(cur) && date_valid(nxt)
        }),
{
    let rule = task.repeat_rule->0;
    let cur = parse_date_text((task.due_date->0)@)->0;
    let nxt = next_due_date_spec(task)->0;
    if rule.rule_type@ == "daily"@ {
        assert(date_lt(cur, nxt));
        lemma_next_day_index(cur);
    } else if rule.rule_type@ == "weekly"@ {
        let days = (rule.day_of_week->0)@;
        let today = weekday_spec(cur) as u8;
        let delta = weekly_delta_spec(days, today);
        assert(0 <= weekday_spec(cur) <= 6);
        if least_day_above(days, today) is Some {
            lemma_least_day_above_gt(days, today);
        }
        assert(delta >= 1);
        lemma_add_days_index(cur, delta as nat);
        assert(day_index_spec(cur) < day_index_spec(nxt));
        if nxt == cur {
            assert(false);
        } else if date_lt(nxt, cur) {
            lemma_date_lt_index(nxt, cur);
            assert(false);
        } else {
            assert(date_lt(cur, nxt));
        }
    } else {
        let days = (rule.day_of_month->0)@;
        if least_valid_day(days, cur.year as int, cur.month as int, cur.day as int) is Some {
            lemma_least_valid_day_range(days, cur.year as int, cur.month as int, cur.day as int);
            assert(date_lt(cur, nxt));
        } else {
            lemma_monthly_scan_valid(
                cur.year as int,
                cur.month as int,
                days,
                MONTHLY_SCAN_BOUND as nat,
            );
            assert((nxt.year as int) * 12 + nxt.month > (cur.year as int) * 12 + cur.month);
            assert(date_lt(cur, nxt));
        }
    }
}

} // verus!
