//! Calendar weeks: the ISO week of a day, and the window of weeks around
//! today.
//!
//! A day is held as its day number in the proleptic Gregorian calendar, with
//! 1 January of year 1 as day 1. The calendar itself is chrono's: which ISO
//! week a day lies in is asked of it, not computed here.

use chrono::Datelike;
use vstd::prelude::*;

verus! {

/// The day number of the first day that the calendar can hold:
/// 1 January of the year -262143.
pub const MIN_DAY: i32 = -95_746_129;

/// The day number of the last day that the calendar can hold:
/// 31 December of the year 262142.
pub const MAX_DAY: i32 = 95_745_399;

/// Whether `day` is the number of a day that the calendar can hold.
pub open spec fn is_day(day: int) -> bool {
    MIN_DAY <= day <= MAX_DAY
}

/// The ISO year and ISO week number of the day with the number `day` (the
/// week belongs to the year that holds its Thursday), as chrono's
/// `NaiveDate::iso_week` gives them.
pub uninterp spec fn iso_week_of(day: int) -> (int, int);

/// The day `by` days from `day`, where both are days of the calendar.
pub open spec fn shifted(day: int, by: int) -> Option<int> {
    if is_day(day) && is_day(day + by) {
        Some(day + by)
    } else {
        None
    }
}

/// The week of the day `by` days from `day`, as a list: empty where that
/// day lies outside the calendar.
pub open spec fn week_if_any(day: int, by: int) -> Seq<(int, int)> {
    match shifted(day, by) {
        Some(d) => seq![iso_week_of(d)],
        None => Seq::empty(),
    }
}

/// The weeks of the days `count`, `count - 1`, .., 1 weeks before `today`,
/// in that order, without those that lie outside the calendar.
pub open spec fn weeks_before(today: int, count: nat) -> Seq<(int, int)>
    decreases count,
{
    if count == 0 {
        Seq::empty()
    } else {
        week_if_any(today, -7 * (count as int)) + weeks_before(today, (count - 1) as nat)
    }
}

/// The weeks of the days 1, 2, .., `count` weeks after `today`, in that
/// order, without those that lie outside the calendar.
pub open spec fn weeks_after(today: int, count: nat) -> Seq<(int, int)>
    decreases count,
{
    if count == 0 {
        Seq::empty()
    } else {
        weeks_after(today, (count - 1) as nat) + week_if_any(today, 7 * (count as int))
    }
}

/// The window of weeks around `today`: `before` weeks back, the week of
/// `today`, `after` weeks ahead, earliest first.
pub open spec fn weeks_around(today: int, before: nat, after: nat) -> Seq<(int, int)> {
    weeks_before(today, before) + seq![iso_week_of(today)] + weeks_after(today, after)
}

/// A list of year and week pairs, as mathematical integers.
pub open spec fn as_weeks(pairs: Seq<(i32, u32)>) -> Seq<(int, int)> {
    pairs.map_values(|p: (i32, u32)| (p.0 as int, p.1 as int))
}

/// A window with nothing before and nothing after is the week of today
/// alone.
pub proof fn lemma_weeks_around_today_alone(today: int)
    ensures
        weeks_around(today, 0, 0) == seq![iso_week_of(today)],
{
    assert(weeks_around(today, 0, 0) =~= seq![iso_week_of(today)]);
}

/// The weeks before today, where none of them leaves the calendar: one for
/// each week back, the earliest first.
proof fn lemma_weeks_before_in_calendar(today: int, count: nat)
    requires
        is_day(today),
        is_day(today - 7 * count),
    ensures
        weeks_before(today, count).len() == count,
        forall|i: int|
            0 <= i < count ==> #[trigger] weeks_before(today, count)[i] == iso_week_of(
                today - 7 * (count - i),
            ),
    decreases count,
{
    if count > 0 {
        lemma_weeks_before_in_calendar(today, (count - 1) as nat);
        let rest = weeks_before(today, (count - 1) as nat);
        let head = week_if_any(today, -7 * (count as int));
        assert(head == seq![iso_week_of(today - 7 * count)]);
        assert forall|i: int| 0 <= i < count implies #[trigger] weeks_before(today, count)[i]
            == iso_week_of(today - 7 * (count - i)) by {
            if i > 0 {
                assert(weeks_before(today, count)[i] == rest[i - 1]);
            }
        }
    }
}

/// The weeks after today, where none of them leaves the calendar: one for
/// each week ahead, the nearest first.
proof fn lemma_weeks_after_in_calendar(today: int, count: nat)
    requires
        is_day(today),
        is_day(today + 7 * count),
    ensures
        weeks_after(today, count).len() == count,
        forall|i: int|
            0 <= i < count ==> #[trigger] weeks_after(today, count)[i] == iso_week_of(
                today + 7 * (i + 1),
            ),
    decreases count,
{
    if count > 0 {
        lemma_weeks_after_in_calendar(today, (count - 1) as nat);
        let rest = weeks_after(today, (count - 1) as nat);
        let tail = week_if_any(today, 7 * (count as int));
        assert(tail == seq![iso_week_of(today + 7 * count)]);
        assert forall|i: int| 0 <= i < count implies #[trigger] weeks_after(today, count)[i]
            == iso_week_of(today + 7 * (i + 1)) by {
            if i < count - 1 {
                assert(weeks_after(today, count)[i] == rest[i]);
            }
        }
    }
}

/// Where the whole window lies in the calendar, it holds one week for each
/// step, in the order of their days: the week at position `i` is the week
/// of the day `i - before` weeks from today, so the week of today stands at
/// position `before`.
pub proof fn lemma_weeks_around_in_calendar(today: int, before: nat, after: nat)
    requires
        is_day(today - 7 * before),
        is_day(today + 7 * after),
    ensures
        weeks_around(today, before, after).len() == before + after + 1,
        forall|i: int|
            0 <= i < before + after + 1 ==> #[trigger] weeks_around(today, before, after)[i]
                == iso_week_of(today + 7 * (i - before)),
        weeks_around(today, before, after)[before as int] == iso_week_of(today),
{
    lemma_weeks_before_in_calendar(today, before);
    lemma_weeks_after_in_calendar(today, after);
    let b = weeks_before(today, before);
    let a = weeks_after(today, after);
    let all = weeks_around(today, before, after);
    assert forall|i: int| 0 <= i < before + after + 1 implies #[trigger] all[i] == iso_week_of(
        today + 7 * (i - before),
    ) by {
        if i < before {
            assert(all[i] == b[i]);
        } else if i == before {
            assert(all[i] == iso_week_of(today));
        } else {
            assert(all[i] == a[i - before - 1]);
        }
    }
}

/// A window never holds more weeks than were asked for, and the week of
/// today stands behind the weeks before it.
pub proof fn lemma_weeks_around_length(today: int, before: nat, after: nat)
    ensures
        weeks_before(today, before).len() <= before,
        weeks_after(today, after).len() <= after,
        weeks_around(today, before, after).len() == weeks_before(today, before).len()
            + weeks_after(today, after).len() + 1,
        weeks_around(today, before, after)[weeks_before(today, before).len() as int]
            == iso_week_of(today),
    decreases before + after,
{
    if before > 0 {
        lemma_weeks_around_length(today, (before - 1) as nat, after);
    } else if after > 0 {
        lemma_weeks_around_length(today, before, (after - 1) as nat);
    }
}

/// chrono's `Local::now`, `DateTime::date_naive` and
/// `Datelike::num_days_from_ce`: the day number of today's local date.
/// Which day that is depends on the clock; it is a day of the calendar.
#[verifier::external_body]
fn today() -> (day: i32)
    ensures
        is_day(day as int),
{
    chrono::Local::now().date_naive().num_days_from_ce()
}

/// chrono's `NaiveDate::from_num_days_from_ce_opt`, `NaiveDate::iso_week`,
/// `IsoWeek::year` and `IsoWeek::week`: the ISO year and week of the day
/// with the number `day`. There is one exactly for the days of the
/// calendar, and its week number lies between 1 and 53.
#[verifier::external_body]
fn iso_week(day: i32) -> (week: Option<(i32, u32)>)
    ensures
        week is Some <==> is_day(day as int),
        week matches Some(w) ==> (w.0 as int, w.1 as int) == iso_week_of(day as int) && 1 <= w.1
            <= 53,
{
    match chrono::NaiveDate::from_num_days_from_ce_opt(day) {
        Some(date) => Some((date.iso_week().year(), date.iso_week().week())),
        None => None,
    }
}

/// chrono's `NaiveDate::checked_sub_signed` with `Duration::weeks(weeks)`,
/// on day numbers: the day `weeks` whole weeks before `day`, or `None`
/// where `day` or that day lies outside the calendar.
#[verifier::external_body]
fn weeks_earlier(day: i32, weeks: u32) -> (earlier: Option<i32>)
    ensures
        match earlier {
            Some(d) => shifted(day as int, -7 * weeks) == Some(d as int),
            None => shifted(day as int, -7 * weeks) is None,
        },
{
    match chrono::NaiveDate::from_num_days_from_ce_opt(day) {
        Some(date) => match date.checked_sub_signed(chrono::Duration::weeks(weeks as i64)) {
            Some(moved) => Some(moved.num_days_from_ce()),
            None => None,
        },
        None => None,
    }
}

/// chrono's `NaiveDate::checked_add_signed` with `Duration::weeks(weeks)`,
/// on day numbers: the day `weeks` whole weeks after `day`, or `None`
/// where `day` or that day lies outside the calendar.
#[verifier::external_body]
fn weeks_later(day: i32, weeks: u32) -> (later: Option<i32>)
    ensures
        match later {
            Some(d) => shifted(day as int, 7 * weeks) == Some(d as int),
            None => shifted(day as int, 7 * weeks) is None,
        },
{
    match chrono::NaiveDate::from_num_days_from_ce_opt(day) {
        Some(date) => match date.checked_add_signed(chrono::Duration::weeks(weeks as i64)) {
            Some(moved) => Some(moved.num_days_from_ce()),
            None => None,
        },
        None => None,
    }
}

/// Whether every week number of the list lies between 1 and 53.
pub open spec fn week_numbers_in_range(pairs: Seq<(i32, u32)>) -> bool {
    forall|i: int| 0 <= i < pairs.len() ==> 1 <= (#[trigger] pairs[i]).1 <= 53
}

/// Appends to `weeks` the week of the day `by` days from `from`, which
/// `day` holds if it lies in the calendar.
fn push_week(
    weeks: &mut Vec<(i32, u32)>,
    day: Option<i32>,
    Ghost(from): Ghost<int>,
    Ghost(by): Ghost<int>,
)
    requires
        week_numbers_in_range(old(weeks)@),
        match day {
            Some(d) => shifted(from, by) == Some(d as int),
            None => shifted(from, by) is None,
        },
    ensures
        as_weeks(final(weeks)@) == as_weeks(old(weeks)@) + week_if_any(from, by),
        week_numbers_in_range(final(weeks)@),
{
    if let Some(d) = day {
        if let Some(pair) = iso_week(d) {
            weeks.push(pair);
        }
    }
    assert(as_weeks(weeks@) =~= as_weeks(old(weeks)@) + week_if_any(from, by));
}

/// The window of weeks around the day `today`: the weeks of the days
/// `before`, .., 1 weeks earlier, the week of `today`, and the weeks of the
/// days 1, .., `after` weeks later, earliest first. A step that leaves the
/// calendar is left out. `None` where `today` is no day of the calendar.
pub fn weeks_around_day(today: i32, before: u32, after: u32) -> (window: Option<Vec<(i32, u32)>>)
    ensures
        window is Some <==> is_day(today as int),
        window matches Some(weeks) ==> as_weeks(weeks@) == weeks_around(
            today as int,
            before as nat,
            after as nat,
        ) && week_numbers_in_range(weeks@),
{
    let current = match iso_week(today) {
        Some(pair) => pair,
        None => {
            return None;
        },
    };
    let mut weeks: Vec<(i32, u32)> = Vec::new();
    let mut i: u32 = before;
    while i >= 1
        invariant
            i <= before,
            as_weeks(weeks@) + weeks_before(today as int, i as nat) == weeks_before(
                today as int,
                before as nat,
            ),
            week_numbers_in_range(weeks@),
        decreases i,
    {
        let day = weeks_earlier(today, i);
        let ghost so_far = as_weeks(weeks@);
        push_week(&mut weeks, day, Ghost(today as int), Ghost(-7 * i));
        proof {
            let head = week_if_any(today as int, -7 * i);
            let rest = weeks_before(today as int, (i - 1) as nat);
            assert(weeks_before(today as int, i as nat) == head + rest);
            assert((so_far + head) + rest =~= so_far + (head + rest));
        }
        i = i - 1;
    }
    proof {
        assert(as_weeks(weeks@) =~= weeks_before(today as int, before as nat));
    }
    weeks.push(current);
    let ghost front = as_weeks(weeks@);
    proof {
        assert(front =~= weeks_before(today as int, before as nat) + seq![
            iso_week_of(today as int),
        ]);
    }
    let mut j: u32 = 0;
    while j < after
        invariant
            j <= after,
            as_weeks(weeks@) == front + weeks_after(today as int, j as nat),
            week_numbers_in_range(weeks@),
        decreases after - j,
    {
        j = j + 1;
        let day = weeks_later(today, j);
        let ghost so_far = weeks_after(today as int, (j - 1) as nat);
        push_week(&mut weeks, day, Ghost(today as int), Ghost(7 * j));
        proof {
            let tail = week_if_any(today as int, 7 * j);
            assert(weeks_after(today as int, j as nat) == so_far + tail);
            assert((front + so_far) + tail =~= front + (so_far + tail));
        }
    }
    Some(weeks)
}

/// The ISO year and ISO week number of today's local date. Which day today
/// is depends on the clock.
pub fn get_current_week_info() -> (current: (i32, u32))
    ensures
        exists|today: int|
            is_day(today) && (current.0 as int, current.1 as int) == #[trigger] iso_week_of(today),
        1 <= current.1 <= 53,
{
    let day = today();
    match iso_week(day) {
        Some(pair) => pair,
        None => (0, 1),
    }
}

/// The window of weeks around today's local date: see `weeks_around_day`.
/// Which day today is depends on the clock.
pub fn get_weeks_around_current(before: u32, after: u32) -> (weeks: Vec<(i32, u32)>)
    ensures
        exists|today: int|
            is_day(today) && as_weeks(weeks@) == #[trigger] weeks_around(
                today,
                before as nat,
                after as nat,
            ),
        week_numbers_in_range(weeks@),
{
    let day = today();
    match weeks_around_day(day, before, after) {
        Some(weeks) => weeks,
        None => Vec::new(),
    }
}

} // verus!
