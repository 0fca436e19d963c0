use berichtgen::{get_config_path, get_data_dir_name, get_week_file_path, get_week_key};

#[test]
fn week_key_pads_the_week_to_two_digits() {
    assert_eq!(get_week_key(2024, 10), "2024-10");
    assert_eq!(get_week_key(2024, 1), "2024-01");
    assert_eq!(get_week_key(2024, 9), "2024-09");
    assert_eq!(get_week_key(2024, 53), "2024-53");
    assert_eq!(get_week_key(2024, 0), "2024-00");
}

#[test]
fn week_key_keeps_weeks_of_more_than_two_digits_whole() {
    assert_eq!(get_week_key(2024, 100), "2024-100");
    assert_eq!(get_week_key(1, 4294967295), "1-4294967295");
}

#[test]
fn week_key_writes_small_and_negative_years_as_they_are() {
    assert_eq!(get_week_key(0, 5), "0-05");
    assert_eq!(get_week_key(7, 12), "7-12");
    assert_eq!(get_week_key(-5, 3), "-5-03");
    assert_eq!(get_week_key(-2024, 10), "-2024-10");
    assert_eq!(get_week_key(i32::MAX, 1), "2147483647-01");
    assert_eq!(get_week_key(i32::MIN, 1), "-2147483648-01");
}

#[test]
fn week_key_agrees_with_the_format_on_a_grid() {
    let years = [i32::MIN, -10000, -999, -10, -1, 0, 1, 9, 10, 99, 100, 1999, 2024, 10000, i32::MAX];
    let weeks = [0u32, 1, 2, 9, 10, 11, 52, 53, 99, 100, 101, 1000, u32::MAX];
    for year in years {
        for week in weeks {
            assert_eq!(get_week_key(year, week), format!("{}-{:02}", year, week));
        }
    }
}

#[test]
fn week_key_is_the_same_on_every_call() {
    assert_eq!(get_week_key(2023, 7), get_week_key(2023, 7));
    assert_eq!(get_week_key(-1, 53), get_week_key(-1, 53));
}

#[test]
fn week_keys_of_distinct_weeks_differ() {
    let years = [-202, -20, -2, -1, 0, 1, 2, 20, 202, 2024, 20241];
    let weeks = [0u32, 1, 2, 4, 10, 12, 20, 41, 100, 241, 1000];
    let mut keys: Vec<(String, i32, u32)> = Vec::new();
    for year in years {
        for week in weeks {
            keys.push((get_week_key(year, week), year, week));
        }
    }
    for a in &keys {
        for b in &keys {
            if a.1 != b.1 || a.2 != b.2 {
                assert_ne!(a.0, b.0);
            }
        }
    }
}

#[test]
fn week_file_path_wraps_the_key() {
    assert_eq!(get_week_file_path(2024, 10), "week_2024-10.json");
    assert_eq!(get_week_file_path(2024, 3), "week_2024-03.json");
    assert_eq!(get_week_file_path(-1, 100), "week_-1-100.json");
}

#[test]
fn week_file_paths_of_distinct_weeks_differ() {
    assert_ne!(get_week_file_path(2024, 1), get_week_file_path(2024, 10));
    assert_ne!(get_week_file_path(202, 41), get_week_file_path(2024, 1));
    assert_ne!(get_week_file_path(-1, 1), get_week_file_path(1, 1));
}

#[test]
fn config_path_and_data_directory_have_their_fixed_names() {
    assert_eq!(get_config_path(), "config.json");
    assert_eq!(get_data_dir_name(), "BerichtGen");
}
