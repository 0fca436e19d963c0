//! The stored records: the day entry, the entries of a week keyed by
//! weekday name, and the week itself.

use crate::assoc::{
    find_key, has_key, key_index, keyed_map, keys_distinct, lemma_map_at, lemma_push_inserts,
    lemma_same_map, lemma_update_inserts,
};
use vstd::prelude::*;

verus! {

/// One logged day: its date in ISO 8601 form, the area the day was spent
/// in, and free notes. An entry is replaced as a whole, never edited.
#[derive(Debug)]
pub struct DayEntry {
    pub date: String,
    pub area: String,
    pub notes: String,
}

/// What a day entry holds, as texts.
pub struct DayEntryView {
    pub date: Seq<char>,
    pub area: Seq<char>,
    pub notes: Seq<char>,
}

impl View for DayEntry {
    type V = DayEntryView;

    open spec fn view(&self) -> DayEntryView {
        DayEntryView { date: self.date@, area: self.area@, notes: self.notes@ }
    }
}

impl Clone for DayEntry {
    fn clone(&self) -> (copy: Self)
        ensures
            copy@ == self@,
    {
        DayEntry { date: self.date.clone(), area: self.area.clone(), notes: self.notes.clone() }
    }
}

impl PartialEq for DayEntry {
    fn eq(&self, other: &Self) -> (equal: bool) {
        self.date == other.date && self.area == other.area && self.notes == other.notes
    }
}

impl vstd::std_specs::cmp::PartialEqSpecImpl for DayEntry {
    open spec fn obeys_eq_spec() -> bool {
        true
    }

    open spec fn eq_spec(&self, other: &Self) -> bool {
        self.date@ == other.date@ && self.area@ == other.area@ && self.notes@ == other.notes@
    }
}

/// The entries of one week, keyed by weekday name. A weekday has at most
/// one entry; any text may serve as a weekday name.
#[derive(Debug)]
pub struct DayEntries {
    items: Vec<(String, DayEntry)>,
}

/// What the entries show of a stored day entry.
pub open spec fn entry_view() -> spec_fn(DayEntry) -> DayEntryView {
    |e: DayEntry| e@
}

impl View for DayEntries {
    type V = Map<Seq<char>, DayEntryView>;

    closed spec fn view(&self) -> Map<Seq<char>, DayEntryView> {
        keyed_map(self.items@, entry_view())
    }
}

impl DayEntries {
    #[verifier::type_invariant]
    spec fn well_formed(&self) -> bool {
        keys_distinct(self.items@)
    }

    /// No entries.
    pub fn new() -> (entries: Self)
        ensures
            entries@ == Map::<Seq<char>, DayEntryView>::empty(),
    {
        let entries = DayEntries { items: Vec::new() };
        assert(entries@ =~= Map::<Seq<char>, DayEntryView>::empty());
        entries
    }

    /// Whether no weekday has an entry.
    pub fn is_empty(&self) -> (empty: bool)
        ensures
            empty <==> self@ == Map::<Seq<char>, DayEntryView>::empty(),
    {
        let empty = self.items.len() == 0;
        proof {
            if empty {
                assert(self@ =~= Map::<Seq<char>, DayEntryView>::empty());
            } else {
                assert(has_key(self.items@, self.items@[0].0@));
                assert(self@.contains_key(self.items@[0].0@));
            }
        }
        empty
    }

    /// The entry of `weekday`, if it has one.
    pub fn get(&self, weekday: &str) -> (entry: Option<&DayEntry>)
        ensures
            match entry {
                Some(e) => self@.contains_key(weekday@) && e@ == self@[weekday@],
                None => !self@.contains_key(weekday@),
            },
    {
        let key = weekday.to_owned();
        match find_key(&self.items, &key) {
            Some(i) => {
                proof {
                    use_type_invariant(self);
                    lemma_map_at(self.items@, i as int, entry_view());
                }
                Some(&self.items[i].1)
            },
            None => None,
        }
    }

    /// Whether `weekday` has an entry.
    pub fn contains_key(&self, weekday: &str) -> (present: bool)
        ensures
            present == self@.contains_key(weekday@),
    {
        let key = weekday.to_owned();
        find_key(&self.items, &key).is_some()
    }

    /// Sets the entry of `weekday`, in place of the one it had, if any.
    /// The other weekdays keep their entries.
    pub fn insert(&mut self, weekday: String, entry: DayEntry)
        ensures
            final(self)@ == old(self)@.insert(weekday@, entry@),
    {
        proof {
            use_type_invariant(&*self);
        }
        let ghost before = self.items@;
        let ghost pair = (weekday, entry);
        // The list is taken out while it changes, so that it is whole again
        // before it is put back.
        let mut items: Vec<(String, DayEntry)> = Vec::new();
        core::mem::swap(&mut self.items, &mut items);
        match find_key(&items, &weekday) {
            Some(i) => {
                proof {
                    lemma_update_inserts(before, i as int, pair, entry_view());
                }
                items.set(i, (weekday, entry));
                assert(items@ == before.update(i as int, pair));
            },
            None => {
                proof {
                    lemma_push_inserts(before, pair, entry_view());
                }
                items.push((weekday, entry));
                assert(items@ == before.push(pair));
            },
        }
        core::mem::swap(&mut self.items, &mut items);
    }

    /// The weekday names that have an entry, each once.
    pub fn keys(&self) -> (names: Vec<String>)
        ensures
            forall|k: Seq<char>|
                self@.contains_key(k) <==> exists|i: int|
                    0 <= i < names.len() && (#[trigger] names[i])@ == k,
            forall|i: int, j: int|
                0 <= i < j < names.len() ==> (#[trigger] names[i])@ != (#[trigger] names[j])@,
    {
        proof {
            use_type_invariant(self);
        }
        let mut names: Vec<String> = Vec::new();
        let mut i: usize = 0;
        while i < self.items.len()
            invariant
                i <= self.items.len(),
                names.len() == i,
                forall|j: int| 0 <= j < i ==> (#[trigger] names[j])@ == self.items@[j].0@,
            decreases self.items.len() - i,
        {
            names.push(self.items[i].0.clone());
            i = i + 1;
        }
        proof {
            assert forall|k: Seq<char>|
                self@.contains_key(k) <==> exists|i: int|
                    0 <= i < names.len() && (#[trigger] names[i])@ == k by {
                if self@.contains_key(k) {
                    let j = key_index(self.items@, k);
                    assert(names[j]@ == k);
                }
                if exists|i: int| 0 <= i < names.len() && (#[trigger] names[i])@ == k {
                    let j = choose|i: int| 0 <= i < names.len() && (#[trigger] names[i])@ == k;
                    assert(self.items@[j].0@ == k);
                }
            }
            assert forall|a: int, b: int| 0 <= a < b < names.len() implies (#[trigger] names[a])@
                != (#[trigger] names[b])@ by {
                assert(self.items@[a].0@ != self.items@[b].0@);
            }
        }
        names
    }
}

impl Clone for DayEntries {
    fn clone(&self) -> (copy: Self)
        ensures
            copy@ == self@,
    {
        proof {
            use_type_invariant(self);
        }
        let mut items: Vec<(String, DayEntry)> = Vec::new();
        let mut i: usize = 0;
        while i < self.items.len()
            invariant
                i <= self.items.len(),
                items.len() == i,
                forall|j: int|
                    0 <= j < i ==> (#[trigger] items[j]).0@ == self.items@[j].0@ && items[j].1@
                        == self.items@[j].1@,
            decreases self.items.len() - i,
        {
            items.push((self.items[i].0.clone(), self.items[i].1.clone()));
            i = i + 1;
        }
        proof {
            lemma_same_map(self.items@, items@, entry_view());
        }
        DayEntries { items }
    }
}

/// The record of one week: the ISO year, the ISO week number, and the
/// entries logged so far. A weekday without an entry has not been logged.
#[derive(Debug)]
pub struct WeekData {
    pub year: i32,
    pub week: u32,
    pub entries: DayEntries,
}

/// What a week record holds.
pub struct WeekDataView {
    pub year: int,
    pub week: int,
    pub entries: Map<Seq<char>, DayEntryView>,
}

/// The record of a week in which nothing has been logged.
pub open spec fn empty_week(year: int, week: int) -> WeekDataView {
    WeekDataView { year, week, entries: Map::empty() }
}

impl View for WeekData {
    type V = WeekDataView;

    open spec fn view(&self) -> WeekDataView {
        WeekDataView { year: self.year as int, week: self.week as int, entries: self.entries@ }
    }
}

impl WeekData {
    /// The record of week `week` of year `year`, with no entries.
    pub fn new(year: i32, week: u32) -> (data: Self)
        ensures
            data@ == empty_week(year as int, week as int),
    {
        WeekData { year, week, entries: DayEntries::new() }
    }
}

impl Clone for WeekData {
    fn clone(&self) -> (copy: Self)
        ensures
            copy@ == self@,
    {
        WeekData { year: self.year, week: self.week, entries: self.entries.clone() }
    }
}

} // verus!
