use berichtgen::{
    generate_report, get_report_file_name, render_report, sanitize_name, Config, DayEntry,
    WeekCache, WeekData,
};

fn config() -> Config {
    Config {
        trainee_name: "Erika Muster".to_string(),
        department_name: "Entwicklung".to_string(),
        company_name: "Beispiel GmbH".to_string(),
        output_directory: "/tmp/reports".to_string(),
        start_date: "2023-09-01".to_string(),
    }
}

fn day(date: &str, area: &str, notes: &str) -> DayEntry {
    DayEntry { date: date.to_string(), area: area.to_string(), notes: notes.to_string() }
}

const NO_ENTRY: &str = "Keine Einträge für diesen Tag\n";

#[test]
fn report_of_an_empty_week_has_the_fixed_layout() {
    let week = WeekData::new(2024, 10);
    let text = render_report(&config(), &week, 2024, 10, "08.03.2024 16:30");
    let rule = "=".repeat(50);
    let day_rule = "-".repeat(30);
    let mut expected = String::new();
    expected.push_str("BERICHTSHEFT - KALENDERWOCHE 10\n");
    expected.push_str("Jahr: 2024\n");
    expected.push_str(&rule);
    expected.push_str("\n\n");
    expected.push_str("Auszubildende/r: Erika Muster\n");
    expected.push_str("Abteilung: Entwicklung\n");
    expected.push_str("Unternehmen: Beispiel GmbH\n");
    expected.push_str("\n");
    expected.push_str(&rule);
    expected.push_str("\n\n");
    for name in ["Montag", "Dienstag", "Mittwoch", "Donnerstag", "Freitag"] {
        expected.push_str(name);
        expected.push_str(":\n");
        expected.push_str(&day_rule);
        expected.push_str("\n");
        expected.push_str(NO_ENTRY);
        expected.push_str("\n\n");
    }
    expected.push_str(&rule);
    expected.push_str("\n");
    expected.push_str("Erstellt am: 08.03.2024 16:30\n");
    assert_eq!(text, expected);
}

#[test]
fn report_shows_an_entry_as_it_was_entered() {
    let mut week = WeekData::new(2024, 10);
    week.entries.insert(
        "Wednesday".to_string(),
        day("2024-03-06", "School", "line one\nline two / three"),
    );
    let text = render_report(&config(), &week, 2024, 10, "now");
    let block = format!(
        "Mittwoch:\n{}\nDatum: 2024-03-06\nBereich: School\nTätigkeiten/Notizen:\nline one\nline two / three\n\n\n",
        "-".repeat(30)
    );
    assert!(text.contains(&block));
    assert_eq!(text.matches(NO_ENTRY).count(), 4);
    assert!(text.ends_with(&format!("{}\nErstellt am: now\n", "=".repeat(50))));
}

#[test]
fn report_after_a_save_holds_the_task_and_four_placeholders() {
    let mut cache = WeekCache::new();
    cache.save_day_entry(
        2024,
        10,
        "Monday".to_string(),
        day("2024-03-04", "Department", "Task X"),
    );
    let week = cache.get_week_data(2024, 10, Ok(None)).unwrap();
    let text = render_report(&config(), &week, 2024, 10, "08.03.2024 16:30");
    assert!(text.contains("Task X"));
    assert!(text.contains("Datum: 2024-03-04\nBereich: Department\n"));
    assert_eq!(text.matches(NO_ENTRY).count(), 4);
    let monday = text.find("Montag:").unwrap();
    let tuesday = text.find("Dienstag:").unwrap();
    let task = text.find("Task X").unwrap();
    assert!(monday < task && task < tuesday);
    for name in ["Dienstag", "Mittwoch", "Donnerstag", "Freitag"] {
        let block = format!("{}:\n{}\n{}\n\n", name, "-".repeat(30), NO_ENTRY);
        assert!(text.contains(&block));
    }
}

#[test]
fn report_shows_the_five_days_in_order_and_no_others() {
    let mut week = WeekData::new(2024, 10);
    week.entries.insert("Saturday".to_string(), day("2024-03-09", "School", "weekend work"));
    week.entries.insert("Friday".to_string(), day("2024-03-08", "Seminar", "friday work"));
    let text = render_report(&config(), &week, 2024, 10, "now");
    assert!(!text.contains("weekend work"));
    assert!(text.contains("friday work"));
    let positions: Vec<usize> = ["Montag:", "Dienstag:", "Mittwoch:", "Donnerstag:", "Freitag:"]
        .iter()
        .map(|name| text.find(name).unwrap())
        .collect();
    for i in 1..positions.len() {
        assert!(positions[i - 1] < positions[i]);
    }
    assert_eq!(text.matches(NO_ENTRY).count(), 4);
}

#[test]
fn report_title_takes_week_and_year_as_asked() {
    let week = WeekData::new(2024, 10);
    let text = render_report(&config(), &week, -3, 7, "now");
    assert!(text.starts_with("BERICHTSHEFT - KALENDERWOCHE 7\nJahr: -3\n"));
}

#[test]
fn sanitize_name_replaces_what_is_unsafe_in_a_path() {
    assert_eq!(sanitize_name("Erika Muster"), "Erika_Muster");
    assert_eq!(sanitize_name("a/b\\c d"), "a_b_c_d");
    assert_eq!(sanitize_name("  "), "__");
    assert_eq!(sanitize_name(""), "");
    assert_eq!(sanitize_name("Jörg_Müller-Lüdenscheidt"), "Jörg_Müller-Lüdenscheidt");
    assert_eq!(sanitize_name("x:y*z"), "x:y*z");
}

#[test]
fn sanitize_name_agrees_with_three_replacements() {
    for name in ["", "plain", "with space", "a/b", "a\\b", " / \\ ", "ÄÖ Ü/ß\\é", "tab\tnew\nline"] {
        let expected = name.replace(" ", "_").replace("/", "_").replace("\\", "_");
        assert_eq!(sanitize_name(name), expected);
    }
}

#[test]
fn report_file_name_is_built_from_week_year_name_and_time() {
    assert_eq!(
        get_report_file_name(10, 2024, "Erika Muster", "20240308_163000"),
        "Berichtsheft_KW10_2024_Erika_Muster_20240308_163000.txt"
    );
    assert_eq!(
        get_report_file_name(3, 2024, "a/b", "s"),
        "Berichtsheft_KW03_2024_a_b_s.txt"
    );
    assert_eq!(get_report_file_name(100, -1, "", ""), "Berichtsheft_KW100_-1__.txt");
}

#[test]
fn generated_report_carries_the_time_of_the_call() {
    let mut week = WeekData::new(2024, 10);
    week.entries.insert("Monday".to_string(), day("2024-03-04", "Department", "Task X"));
    let report = generate_report(&config(), &week, 2024, 10);
    assert!(report.file_name.starts_with("Berichtsheft_KW10_2024_Erika_Muster_"));
    assert!(report.file_name.ends_with(".txt"));
    let stamp = &report.file_name["Berichtsheft_KW10_2024_Erika_Muster_".len()
        ..report.file_name.len() - ".txt".len()];
    assert_eq!(stamp.len(), 15);
    assert!(stamp.chars().enumerate().all(|(i, c)| if i == 8 { c == '_' } else {
        c.is_ascii_digit()
    }));
    assert!(report.content.contains("Task X"));
    assert_eq!(report.content.matches(NO_ENTRY).count(), 4);
    let last = report.content.lines().last().unwrap();
    assert!(last.starts_with("Erstellt am: "));
    let created = &last["Erstellt am: ".len()..];
    assert_eq!(created.len(), 16);
    let without_time = render_report(&config(), &week, 2024, 10, created);
    assert_eq!(report.content, without_time);
}
