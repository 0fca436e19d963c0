//! The week cache: the weeks that have been touched since the start, by
//! week key, in front of the stored files.
//!
//! The cache decides; its caller reads and writes the files. A read asks
//! the cache first and the store only on a miss; a save changes the cache
//! and hands back the record that is to be written.

use crate::error::StoreError;
use crate::assoc::{
    find_key, keyed_map, keys_distinct, lemma_map_at, lemma_push_inserts, lemma_update_inserts,
};
use crate::key::{get_week_key, week_key};
use crate::model::{empty_week, DayEntry, DayEntryView, WeekData, WeekDataView};
use vstd::prelude::*;

verus! {

/// What a cache holds: week records by week key.
pub type Weeks = Map<Seq<char>, WeekDataView>;

/// The record that a read of week `week` of year `year` returns: the cached
/// one; on a miss the stored one; where neither exists, an empty week.
pub open spec fn fetched(
    weeks: Weeks,
    year: int,
    week: nat,
    stored: Option<WeekDataView>,
) -> WeekDataView {
    if weeks.contains_key(week_key(year, week)) {
        weeks[week_key(year, week)]
    } else {
        match stored {
            Some(data) => data,
            None => empty_week(year, week as int),
        }
    }
}

/// The cache after that read: the record read is in it, under the week's
/// key.
pub open spec fn after_fetch(
    weeks: Weeks,
    year: int,
    week: nat,
    stored: Option<WeekDataView>,
) -> Weeks {
    weeks.insert(week_key(year, week), fetched(weeks, year, week, stored))
}

/// The record of a week after `entry` has been saved for `weekday`: the
/// cached record, or an empty week where none is cached, with that one
/// entry set.
pub open spec fn saved(
    weeks: Weeks,
    year: int,
    week: nat,
    weekday: Seq<char>,
    entry: DayEntryView,
) -> WeekDataView {
    let base = if weeks.contains_key(week_key(year, week)) {
        weeks[week_key(year, week)]
    } else {
        empty_week(year, week as int)
    };
    WeekDataView { year: base.year, week: base.week, entries: base.entries.insert(weekday, entry) }
}

/// The cache after that save.
pub open spec fn after_save(
    weeks: Weeks,
    year: int,
    week: nat,
    weekday: Seq<char>,
    entry: DayEntryView,
) -> Weeks {
    weeks.insert(week_key(year, week), saved(weeks, year, week, weekday, entry))
}

/// A week read twice, with no save in between, reads the same both times,
/// whatever the store answers the second time.
pub proof fn lemma_fetch_is_stable(
    weeks: Weeks,
    year: int,
    week: nat,
    first: Option<WeekDataView>,
    second: Option<WeekDataView>,
)
    ensures
        fetched(after_fetch(weeks, year, week, first), year, week, second) == fetched(
            weeks,
            year,
            week,
            first,
        ),
        after_fetch(after_fetch(weeks, year, week, first), year, week, second) == after_fetch(
            weeks,
            year,
            week,
            first,
        ),
{
    let once = after_fetch(weeks, year, week, first);
    assert(after_fetch(once, year, week, second) =~= once);
}

/// A read of one week leaves what every other week reads as.
pub proof fn lemma_fetch_keeps_other_weeks(
    weeks: Weeks,
    year: int,
    week: nat,
    stored: Option<WeekDataView>,
    other_year: int,
    other_week: nat,
    other_stored: Option<WeekDataView>,
)
    requires
        year != other_year || week != other_week,
    ensures
        fetched(after_fetch(weeks, year, week, stored), other_year, other_week, other_stored)
            == fetched(weeks, other_year, other_week, other_stored),
{
    if week_key(year, week) == week_key(other_year, other_week) {
        crate::key::lemma_week_key_injective(year, week, other_year, other_week);
    }
}

/// After a save, a read of that week shows the saved entry under its
/// weekday, and so does the record handed back for the store; a cache
/// started afresh on the stored record reads the entry as well.
pub proof fn lemma_saved_entry_is_read(
    weeks: Weeks,
    year: int,
    week: nat,
    weekday: Seq<char>,
    entry: DayEntryView,
    stored: Option<WeekDataView>,
)
    ensures
        saved(weeks, year, week, weekday, entry).entries.contains_key(weekday),
        saved(weeks, year, week, weekday, entry).entries[weekday] == entry,
        fetched(after_save(weeks, year, week, weekday, entry), year, week, stored) == saved(
            weeks,
            year,
            week,
            weekday,
            entry,
        ),
        fetched(
            Map::empty(),
            year,
            week,
            Some(saved(weeks, year, week, weekday, entry)),
        ).entries[weekday] == entry,
{
}

/// A save for one weekday leaves the entries of the week's other weekdays
/// as they were.
pub proof fn lemma_save_keeps_other_weekdays(
    weeks: Weeks,
    year: int,
    week: nat,
    weekday: Seq<char>,
    entry: DayEntryView,
    other: Seq<char>,
)
    requires
        other != weekday,
    ensures
        ({
            let before = fetched(weeks, year, week, None).entries;
            let after = saved(weeks, year, week, weekday, entry).entries;
            &&& after.contains_key(other) == before.contains_key(other)
            &&& before.contains_key(other) ==> after[other] == before[other]
        }),
{
}

/// A save for one week leaves every other week as it was.
pub proof fn lemma_save_keeps_other_weeks(
    weeks: Weeks,
    year: int,
    week: nat,
    weekday: Seq<char>,
    entry: DayEntryView,
    other_year: int,
    other_week: nat,
    stored: Option<WeekDataView>,
)
    requires
        year != other_year || week != other_week,
    ensures
        fetched(after_save(weeks, year, week, weekday, entry), other_year, other_week, stored)
            == fetched(weeks, other_year, other_week, stored),
{
    if week_key(year, week) == week_key(other_year, other_week) {
        crate::key::lemma_week_key_injective(year, week, other_year, other_week);
    }
}

/// The weeks touched since the start, by week key. Nothing is ever evicted.
#[derive(Debug)]
pub struct WeekCache {
    items: Vec<(String, WeekData)>,
}

/// What the cache shows of a cached week.
pub open spec fn week_view() -> spec_fn(WeekData) -> WeekDataView {
    |data: WeekData| data@
}

impl View for WeekCache {
    type V = Weeks;

    closed spec fn view(&self) -> Weeks {
        keyed_map(self.items@, week_view())
    }
}

impl WeekCache {
    #[verifier::type_invariant]
    spec fn well_formed(&self) -> bool {
        keys_distinct(self.items@)
    }

    /// A cache that holds no week.
    pub fn new() -> (cache: Self)
        ensures
            cache@ == Map::<Seq<char>, WeekDataView>::empty(),
    {
        let cache = WeekCache { items: Vec::new() };
        assert(cache@ =~= Map::<Seq<char>, WeekDataView>::empty());
        cache
    }

    /// A copy of the cached record of a week, if the week is cached. The
    /// store is to be asked only where this returns `None`.
    pub fn lookup(&self, year: i32, week: u32) -> (hit: Option<WeekData>)
        ensures
            match hit {
                Some(data) => self@.contains_key(week_key(year as int, week as nat)) && data@
                    == self@[week_key(year as int, week as nat)],
                None => !self@.contains_key(week_key(year as int, week as nat)),
            },
    {
        let key = get_week_key(year, week);
        match find_key(&self.items, &key) {
            Some(i) => {
                proof {
                    use_type_invariant(self);
                    lemma_map_at(self.items@, i as int, week_view());
                }
                Some(self.items[i].1.clone())
            },
            None => None,
        }
    }

    /// Reads a week through the cache. `stored` is the store's answer for
    /// the week: the stored record, if there is one, or the failure to read
    /// it. The answer counts only where the week is not cached. Returns a
    /// copy of the cached record, else of the stored one, else an empty
    /// week, and the week is cached afterwards; where the week is not cached
    /// and the store failed, returns that failure and leaves the cache as it
    /// was.
    pub fn get_week_data(
        &mut self,
        year: i32,
        week: u32,
        stored: Result<Option<WeekData>, StoreError>,
    ) -> (data: Result<WeekData, StoreError>)
        ensures
            match stored {
                Ok(found) => {
                    let found_view = match found {
                        Some(s) => Some(s@),
                        None => None,
                    };
                    &&& data matches Ok(d) && d@ == fetched(
                        old(self)@,
                        year as int,
                        week as nat,
                        found_view,
                    )
                    &&& final(self)@ == after_fetch(
                        old(self)@,
                        year as int,
                        week as nat,
                        found_view,
                    )
                },
                Err(failure) => {
                    &&& final(self)@ == old(self)@
                    &&& if old(self)@.contains_key(week_key(year as int, week as nat)) {
                        data matches Ok(d) && d@ == old(self)@[week_key(year as int, week as nat)]
                    } else {
                        data matches Err(e) && e@ == failure@
                    }
                },
            },
    {
        proof {
            use_type_invariant(&*self);
        }
        let ghost before = self.items@;
        let key = get_week_key(year, week);
        match find_key(&self.items, &key) {
            Some(i) => {
                proof {
                    lemma_map_at(before, i as int, week_view());
                    assert(self@ =~= self@.insert(key@, self@[key@]));
                }
                Ok(self.items[i].1.clone())
            },
            None => {
                let fresh = match stored {
                    Ok(Some(s)) => s,
                    Ok(None) => WeekData::new(year, week),
                    Err(failure) => {
                        return Err(failure);
                    },
                };
                let copy = fresh.clone();
                proof {
                    lemma_push_inserts(before, (key, fresh), week_view());
                }
                let mut items: Vec<(String, WeekData)> = Vec::new();
                core::mem::swap(&mut self.items, &mut items);
                items.push((key, fresh));
                core::mem::swap(&mut self.items, &mut items);
                Ok(copy)
            },
        }
    }

    /// Saves `entry` as the entry of `weekday` in a week, in place of the
    /// one it had, if any; a week that is not cached starts empty. Returns
    /// a copy of the week's record as it is now cached: what the store is
    /// to hold.
    pub fn save_day_entry(
        &mut self,
        year: i32,
        week: u32,
        weekday: String,
        entry: DayEntry,
    ) -> (data: WeekData)
        ensures
            data@ == saved(old(self)@, year as int, week as nat, weekday@, entry@),
            final(self)@ == after_save(old(self)@, year as int, week as nat, weekday@, entry@),
    {
        proof {
            use_type_invariant(&*self);
        }
        let ghost before = self.items@;
        let key = get_week_key(year, week);
        let mut items: Vec<(String, WeekData)> = Vec::new();
        core::mem::swap(&mut self.items, &mut items);
        let found = find_key(&items, &key);
        let mut updated = match found {
            Some(i) => {
                proof {
                    lemma_map_at(before, i as int, week_view());
                }
                items[i].1.clone()
            },
            None => WeekData::new(year, week),
        };
        updated.entries.insert(weekday, entry);
        let copy = updated.clone();
        match found {
            Some(i) => {
                proof {
                    lemma_update_inserts(before, i as int, (key, updated), week_view());
                }
                items.set(i, (key, updated));
            },
            None => {
                proof {
                    lemma_push_inserts(before, (key, updated), week_view());
                }
                items.push((key, updated));
            },
        }
        core::mem::swap(&mut self.items, &mut items);
        copy
    }
}

} // verus!
