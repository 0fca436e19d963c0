use berichtgen::{DayEntry, ErrorKind, Failure, StoreError, WeekCache, WeekData};

fn day(date: &str, area: &str, notes: &str) -> DayEntry {
    DayEntry { date: date.to_string(), area: area.to_string(), notes: notes.to_string() }
}

#[test]
fn empty_store_gives_an_empty_week() {
    let mut cache = WeekCache::new();
    assert!(cache.lookup(2024, 10).is_none());
    let week = cache.get_week_data(2024, 10, Ok(None)).unwrap();
    assert_eq!(week.year, 2024);
    assert_eq!(week.week, 10);
    assert!(week.entries.is_empty());
}

#[test]
fn a_week_is_cached_once_it_has_been_read() {
    let mut cache = WeekCache::new();
    cache.get_week_data(2024, 10, Ok(None)).unwrap();
    let hit = cache.lookup(2024, 10);
    assert!(hit.is_some());
    let hit = hit.unwrap();
    assert_eq!((hit.year, hit.week), (2024, 10));
    assert!(hit.entries.is_empty());
    assert!(cache.lookup(2024, 11).is_none());
    assert!(cache.lookup(2025, 10).is_none());
}

#[test]
fn a_miss_takes_the_stored_week() {
    let mut stored = WeekData::new(2024, 10);
    stored.entries.insert("Tuesday".to_string(), day("2024-03-05", "School", "maths"));
    let mut cache = WeekCache::new();
    let week = cache.get_week_data(2024, 10, Ok(Some(stored))).unwrap();
    assert_eq!(week.entries.get("Tuesday"), Some(&day("2024-03-05", "School", "maths")));
    let again = cache.lookup(2024, 10).unwrap();
    assert_eq!(again.entries.get("Tuesday"), Some(&day("2024-03-05", "School", "maths")));
}

#[test]
fn a_hit_does_not_consult_the_store() {
    let mut cache = WeekCache::new();
    cache.save_day_entry(2024, 10, "Monday".to_string(), day("2024-03-04", "Department", "cached"));
    let mut stored = WeekData::new(2024, 10);
    stored.entries.insert("Monday".to_string(), day("2024-03-04", "Department", "stored"));
    let week = cache.get_week_data(2024, 10, Ok(Some(stored))).unwrap();
    assert_eq!(week.entries.get("Monday"), Some(&day("2024-03-04", "Department", "cached")));
}

#[test]
fn reading_twice_gives_the_same_week() {
    let mut stored = WeekData::new(2024, 10);
    stored.entries.insert("Friday".to_string(), day("2024-03-08", "Seminar", "talk"));
    let mut cache = WeekCache::new();
    let first = cache.get_week_data(2024, 10, Ok(Some(stored))).unwrap();
    let second = cache.get_week_data(2024, 10, Ok(None)).unwrap();
    assert_eq!((first.year, first.week), (second.year, second.week));
    assert_eq!(first.entries.keys(), second.entries.keys());
    assert_eq!(first.entries.get("Friday"), second.entries.get("Friday"));
    assert_eq!(second.entries.get("Friday"), Some(&day("2024-03-08", "Seminar", "talk")));
}

#[test]
fn a_saved_entry_is_read_back() {
    let mut cache = WeekCache::new();
    let entry = day("2024-03-04", "Department", "Task X");
    let written = cache.save_day_entry(2024, 10, "Monday".to_string(), entry.clone());
    assert_eq!((written.year, written.week), (2024, 10));
    assert_eq!(written.entries.get("Monday"), Some(&entry));
    let read = cache.get_week_data(2024, 10, Ok(None)).unwrap();
    assert_eq!(read.entries.get("Monday"), Some(&entry));
}

#[test]
fn a_fresh_cache_reads_what_was_written() {
    let mut cache = WeekCache::new();
    let entry = day("2024-03-04", "Department", "Task X");
    let written = cache.save_day_entry(2024, 10, "Monday".to_string(), entry.clone());
    let mut restarted = WeekCache::new();
    assert!(restarted.lookup(2024, 10).is_none());
    let read = restarted.get_week_data(2024, 10, Ok(Some(written))).unwrap();
    assert_eq!(read.entries.get("Monday"), Some(&entry));
}

#[test]
fn saving_one_weekday_keeps_the_others() {
    let mut cache = WeekCache::new();
    cache.save_day_entry(2024, 10, "Tuesday".to_string(), day("2024-03-05", "School", "maths"));
    cache.save_day_entry(2024, 10, "Friday".to_string(), day("2024-03-08", "Seminar", "talk"));
    let written =
        cache.save_day_entry(2024, 10, "Monday".to_string(), day("2024-03-04", "Department", "x"));
    assert_eq!(written.entries.get("Tuesday"), Some(&day("2024-03-05", "School", "maths")));
    assert_eq!(written.entries.get("Friday"), Some(&day("2024-03-08", "Seminar", "talk")));
    assert!(written.entries.get("Wednesday").is_none());
    assert_eq!(written.entries.keys().len(), 3);
    let read = cache.get_week_data(2024, 10, Ok(None)).unwrap();
    assert_eq!(read.entries.get("Tuesday"), Some(&day("2024-03-05", "School", "maths")));
    assert_eq!(read.entries.get("Friday"), Some(&day("2024-03-08", "Seminar", "talk")));
    assert_eq!(read.entries.get("Monday"), Some(&day("2024-03-04", "Department", "x")));
}

#[test]
fn saving_again_replaces_the_entry_as_a_whole() {
    let mut cache = WeekCache::new();
    cache.save_day_entry(2024, 10, "Monday".to_string(), day("2024-03-04", "Department", "old"));
    let written =
        cache.save_day_entry(2024, 10, "Monday".to_string(), day("2024-03-04", "School", "new"));
    assert_eq!(written.entries.get("Monday"), Some(&day("2024-03-04", "School", "new")));
    assert_eq!(written.entries.keys().len(), 1);
}

#[test]
fn saving_into_one_week_keeps_the_other_weeks() {
    let mut cache = WeekCache::new();
    cache.save_day_entry(2024, 10, "Monday".to_string(), day("2024-03-04", "Department", "a"));
    cache.save_day_entry(2024, 1, "Monday".to_string(), day("2024-01-01", "School", "b"));
    cache.save_day_entry(2023, 10, "Monday".to_string(), day("2023-03-06", "Seminar", "c"));
    let a = cache.get_week_data(2024, 10, Ok(None)).unwrap();
    let b = cache.get_week_data(2024, 1, Ok(None)).unwrap();
    let c = cache.get_week_data(2023, 10, Ok(None)).unwrap();
    assert_eq!(a.entries.get("Monday"), Some(&day("2024-03-04", "Department", "a")));
    assert_eq!(b.entries.get("Monday"), Some(&day("2024-01-01", "School", "b")));
    assert_eq!(c.entries.get("Monday"), Some(&day("2023-03-06", "Seminar", "c")));
    assert_eq!((b.year, b.week), (2024, 1));
    assert_eq!((c.year, c.week), (2023, 10));
}

#[test]
fn saving_into_a_cached_week_builds_on_it() {
    let mut stored = WeekData::new(2024, 10);
    stored.entries.insert("Thursday".to_string(), day("2024-03-07", "School", "physics"));
    let mut cache = WeekCache::new();
    cache.get_week_data(2024, 10, Ok(Some(stored))).unwrap();
    let written =
        cache.save_day_entry(2024, 10, "Monday".to_string(), day("2024-03-04", "Department", "x"));
    assert_eq!(written.entries.get("Thursday"), Some(&day("2024-03-07", "School", "physics")));
    assert_eq!(written.entries.get("Monday"), Some(&day("2024-03-04", "Department", "x")));
}

#[test]
fn a_week_that_could_not_be_read_is_not_cached() {
    let mut cache = WeekCache::new();
    cache.get_week_data(2024, 9, Ok(None)).unwrap();
    let failure = StoreError::new(Failure::ParseWeek, "expected value at line 1 column 1");
    let outcome = cache.get_week_data(2024, 10, Err(failure));
    let error = outcome.unwrap_err();
    assert_eq!(error.failure, Failure::ParseWeek);
    assert_eq!(error.kind(), ErrorKind::Parse);
    assert_eq!(error.cause, "expected value at line 1 column 1");
    assert_eq!(
        error.message(),
        "Could not parse week file: expected value at line 1 column 1"
    );
    assert!(cache.lookup(2024, 10).is_none());
    assert!(cache.lookup(2024, 9).is_some());
}

#[test]
fn a_failing_store_does_not_hide_a_cached_week() {
    let mut cache = WeekCache::new();
    cache.save_day_entry(2024, 10, "Monday".to_string(), day("2024-03-04", "Department", "x"));
    let failure = StoreError::new(Failure::ReadWeek, "permission denied");
    let week = cache.get_week_data(2024, 10, Err(failure)).unwrap();
    assert_eq!(week.entries.get("Monday"), Some(&day("2024-03-04", "Department", "x")));
}

#[test]
fn a_week_reads_after_the_store_has_recovered() {
    let mut cache = WeekCache::new();
    let failure = StoreError::new(Failure::ReadWeek, "busy");
    assert!(cache.get_week_data(2024, 10, Err(failure)).is_err());
    let mut stored = WeekData::new(2024, 10);
    stored.entries.insert("Monday".to_string(), day("2024-03-04", "School", "y"));
    let week = cache.get_week_data(2024, 10, Ok(Some(stored))).unwrap();
    assert_eq!(week.entries.get("Monday"), Some(&day("2024-03-04", "School", "y")));
}

#[test]
fn a_copy_handed_out_does_not_reach_the_cache() {
    let mut cache = WeekCache::new();
    let mut week = cache.get_week_data(2024, 10, Ok(None)).unwrap();
    week.entries.insert("Monday".to_string(), day("2024-03-04", "Department", "local"));
    let read = cache.get_week_data(2024, 10, Ok(None)).unwrap();
    assert!(read.entries.is_empty());
}
