//! The weekly report: a fixed layout of plain text, and the name of the
//! file it is written to.

use crate::config::{Config, ConfigView};
use crate::model::{DayEntry, DayEntryView, WeekData};
use crate::text::{decimal, push_decimal, push_repeated, push_signed_decimal, push_two_digit,
    repeated, signed_decimal, two_digit};
use vstd::prelude::*;

verus! {

/// The rule that parts the sections of a report: 50 equals signs.
pub open spec fn section_rule() -> Seq<char> {
    repeated('=', 50)
}

/// The rule below the name of a day: 30 hyphens.
pub open spec fn day_rule() -> Seq<char> {
    repeated('-', 30)
}

/// The head of a report: the title with week and year, a rule, the
/// trainee, department and company, and a rule.
pub open spec fn head_text(config: ConfigView, year: int, week: nat) -> Seq<char> {
    "BERICHTSHEFT - KALENDERWOCHE "@ + decimal(week) + "\n"@ + "Jahr: "@ + signed_decimal(year)
        + "\n"@ + section_rule() + "\n\n"@ + "Auszubildende/r: "@ + config.trainee_name + "\n"@
        + "Abteilung: "@ + config.department_name + "\n"@ + "Unternehmen: "@
        + config.company_name + "\n"@ + "\n"@ + section_rule() + "\n\n"@
}

/// What a report shows of a logged day: date, area and notes, as they
/// were entered.
pub open spec fn entry_text(entry: DayEntryView) -> Seq<char> {
    "Datum: "@ + entry.date + "\n"@ + "Bereich: "@ + entry.area + "\n"@
        + "Tätigkeiten/Notizen:\n"@ + entry.notes + "\n"@
}

/// The line that stands for a day without an entry.
pub open spec fn no_entry_text() -> Seq<char> {
    "Keine Einträge für diesen Tag\n"@
}

/// The block of one day: its name, a rule, and its entry or the line that
/// says there is none.
pub open spec fn day_text(label: Seq<char>, entry: Option<DayEntryView>) -> Seq<char> {
    label + ":\n"@ + day_rule() + "\n"@ + (match entry {
        Some(e) => entry_text(e),
        None => no_entry_text(),
    }) + "\n\n"@
}

/// The entry of `weekday` among `entries`, if it has one.
pub open spec fn entry_of(entries: Map<Seq<char>, DayEntryView>, weekday: Seq<char>) -> Option<
    DayEntryView,
> {
    if entries.contains_key(weekday) {
        Some(entries[weekday])
    } else {
        None
    }
}

/// The foot of a report: a rule and the time at which it was made.
pub open spec fn foot_text(created: Seq<char>) -> Seq<char> {
    section_rule() + "\n"@ + "Erstellt am: "@ + created + "\n"@
}

/// The whole report: the head, the blocks of Monday to Friday under their
/// German names, and the foot.
pub open spec fn report_text(
    config: ConfigView,
    entries: Map<Seq<char>, DayEntryView>,
    year: int,
    week: nat,
    created: Seq<char>,
) -> Seq<char> {
    head_text(config, year, week) + day_text("Montag"@, entry_of(entries, "Monday"@)) + day_text(
        "Dienstag"@,
        entry_of(entries, "Tuesday"@),
    ) + day_text("Mittwoch"@, entry_of(entries, "Wednesday"@)) + day_text(
        "Donnerstag"@,
        entry_of(entries, "Thursday"@),
    ) + day_text("Freitag"@, entry_of(entries, "Friday"@)) + foot_text(created)
}

/// A character as it stands in a file name: a space, a slash or a
/// backslash becomes an underscore.
pub open spec fn safe_char(c: char) -> char {
    if c == ' ' || c == '/' || c == '\\' {
        '_'
    } else {
        c
    }
}

/// A name as it stands in a file name.
pub open spec fn safe_name(name: Seq<char>) -> Seq<char> {
    name.map_values(|c: char| safe_char(c))
}

/// The name of a report's file:
/// `Berichtsheft_KW{week:02}_{year}_{trainee}_{stamp}.txt`, with the
/// trainee's name made safe.
pub open spec fn report_file_name(
    week: nat,
    year: int,
    trainee_name: Seq<char>,
    stamp: Seq<char>,
) -> Seq<char> {
    "Berichtsheft_KW"@ + two_digit(week) + "_"@ + signed_decimal(year) + "_"@ + safe_name(
        trainee_name,
    ) + "_"@ + stamp + ".txt"@
}

/// `String::push` of std: appends one character.
#[verifier::external_body]
fn push_char(out: &mut String, c: char)
    ensures
        final(out)@ == old(out)@.push(c),
{
    out.push(c)
}

/// chrono's `Local::now` and `DateTime::format`, written out as text: the
/// local time of the call in the given pattern. The text depends on the
/// clock, so nothing is claimed of it; the pattern must be one of the two
/// that the report uses, both of which chrono accepts.
#[verifier::external_body]
fn local_time_text(pattern: &str) -> (text: String)
    requires
        pattern@ == "%d.%m.%Y %H:%M"@ || pattern@ == "%Y%m%d_%H%M%S"@,
{
    chrono::Local::now().format(pattern).to_string()
}

/// Appends a section rule.
fn push_section_rule(out: &mut String)
    ensures
        final(out)@ == old(out)@ + section_rule(),
{
    proof {
        reveal_strlit("=");
    }
    push_repeated(out, "=", 50);
}

/// The head of a report.
fn head(config: &Config, year: i32, week: u32) -> (out: String)
    ensures
        out@ == head_text(config@, year as int, week as nat),
{
    let mut out = String::from_str("BERICHTSHEFT - KALENDERWOCHE ");
    push_decimal(&mut out, week as u64);
    out.append("\n");
    out.append("Jahr: ");
    push_signed_decimal(&mut out, year as i64);
    out.append("\n");
    push_section_rule(&mut out);
    out.append("\n\n");
    out.append("Auszubildende/r: ");
    out.append(config.trainee_name.as_str());
    out.append("\n");
    out.append("Abteilung: ");
    out.append(config.department_name.as_str());
    out.append("\n");
    out.append("Unternehmen: ");
    out.append(config.company_name.as_str());
    out.append("\n");
    out.append("\n");
    push_section_rule(&mut out);
    out.append("\n\n");
    out
}

/// What a report shows of a logged day.
fn entry_block(entry: &DayEntry) -> (out: String)
    ensures
        out@ == entry_text(entry@),
{
    let mut out = String::from_str("Datum: ");
    out.append(entry.date.as_str());
    out.append("\n");
    out.append("Bereich: ");
    out.append(entry.area.as_str());
    out.append("\n");
    out.append("Tätigkeiten/Notizen:\n");
    out.append(entry.notes.as_str());
    out.append("\n");
    out
}

/// The block of one day.
fn day_block(label: &str, entry: Option<&DayEntry>) -> (out: String)
    ensures
        out@ == day_text(
            label@,
            match entry {
                Some(e) => Some(e@),
                None => None,
            },
        ),
{
    let mut out = String::from_str(label);
    out.append(":\n");
    proof {
        reveal_strlit("-");
    }
    push_repeated(&mut out, "-", 30);
    out.append("\n");
    match entry {
        Some(e) => {
            let block = entry_block(e);
            out.append(block.as_str());
        },
        None => {
            out.append("Keine Einträge für diesen Tag\n");
        },
    }
    out.append("\n\n");
    out
}

/// The report of a week: the head with `week` and `year` and the
/// configured names, the blocks of Monday to Friday with the entries of
/// `week_data`, and the foot with the time `created`.
pub fn render_report(
    config: &Config,
    week_data: &WeekData,
    year: i32,
    week: u32,
    created: &str,
) -> (text: String)
    ensures
        text@ == report_text(config@, week_data@.entries, year as int, week as nat, created@),
{
    let mut text = head(config, year, week);
    let monday = day_block("Montag", week_data.entries.get("Monday"));
    text.append(monday.as_str());
    let tuesday = day_block("Dienstag", week_data.entries.get("Tuesday"));
    text.append(tuesday.as_str());
    let wednesday = day_block("Mittwoch", week_data.entries.get("Wednesday"));
    text.append(wednesday.as_str());
    let thursday = day_block("Donnerstag", week_data.entries.get("Thursday"));
    text.append(thursday.as_str());
    let friday = day_block("Freitag", week_data.entries.get("Friday"));
    text.append(friday.as_str());
    let mut foot = String::new();
    push_section_rule(&mut foot);
    foot.append("\n");
    foot.append("Erstellt am: ");
    foot.append(created);
    foot.append("\n");
    assert(foot@ =~= foot_text(created@));
    text.append(foot.as_str());
    text
}

/// A name as it stands in a file name: each space, slash and backslash
/// replaced by an underscore.
pub fn sanitize_name(name: &str) -> (safe: String)
    ensures
        safe@ == safe_name(name@),
{
    let mut safe = String::new();
    let count = name.unicode_len();
    let mut i: usize = 0;
    while i < count
        invariant
            i <= count,
            count == name@.len(),
            safe@ == safe_name(name@.subrange(0, i as int)),
        decreases count - i,
    {
        let c = name.get_char(i);
        let kept = if c == ' ' || c == '/' || c == '\\' {
            '_'
        } else {
            c
        };
        push_char(&mut safe, kept);
        i = i + 1;
        assert(safe@ =~= safe_name(name@.subrange(0, i as int)));
    }
    assert(name@.subrange(0, count as int) =~= name@);
    safe
}

/// The name of the file of a report made at the time `stamp`.
pub fn get_report_file_name(week: u32, year: i32, trainee_name: &str, stamp: &str) -> (name:
    String)
    ensures
        name@ == report_file_name(week as nat, year as int, trainee_name@, stamp@),
{
    let mut name = String::from_str("Berichtsheft_KW");
    push_two_digit(&mut name, week as u64);
    name.append("_");
    push_signed_decimal(&mut name, year as i64);
    name.append("_");
    let safe = sanitize_name(trainee_name);
    name.append(safe.as_str());
    name.append("_");
    name.append(stamp);
    name.append(".txt");
    name
}

/// A report that is ready to be written: the name of its file, below the
/// configured output directory, and its text.
#[derive(Debug)]
pub struct Report {
    pub file_name: String,
    pub content: String,
}

/// Makes the report of a week now: its text ends with the local time of
/// the call, and the name of its file carries that time as well.
pub fn generate_report(config: &Config, week_data: &WeekData, year: i32, week: u32) -> (report:
    Report)
    ensures
        exists|created: Seq<char>|
            report.content@ == #[trigger] report_text(
                config@,
                week_data@.entries,
                year as int,
                week as nat,
                created,
            ),
        exists|stamp: Seq<char>|
            report.file_name@ == #[trigger] report_file_name(
                week as nat,
                year as int,
                config@.trainee_name,
                stamp,
            ),
{
    let created = local_time_text("%d.%m.%Y %H:%M");
    let content = render_report(config, week_data, year, week, created.as_str());
    let stamp = local_time_text("%Y%m%d_%H%M%S");
    let file_name = get_report_file_name(week, year, config.trainee_name.as_str(), stamp.as_str());
    Report { file_name, content }
}

} // verus!
