//! Week keys and the names of the files that hold the stored records.
//!
//! The key of a week is the cache key and the part of the file name that
//! tells the weeks apart, so its format is fixed: the year, a hyphen, and
//! the week number padded to two digits.

use crate::text::{
    lemma_signed_decimal_injective, lemma_two_digit_injective, lemma_two_digit_shape,
    push_signed_decimal, push_two_digit, signed_decimal, two_digit,
};
use vstd::prelude::*;

verus! {

/// The key of week `week` of year `year`: `"{year}-{week:02}"`.
pub open spec fn week_key(year: int, week: nat) -> Seq<char> {
    signed_decimal(year) + seq!['-'] + two_digit(week)
}

/// The name of the file that holds a week, below the data directory.
pub open spec fn week_file_name(year: int, week: nat) -> Seq<char> {
    "week_"@ + week_key(year, week) + ".json"@
}

/// The name of the directory, below the user's data directory, that holds
/// the stored files.
pub open spec fn data_dir_name() -> Seq<char> {
    "BerichtGen"@
}

/// The name of the configuration file, below the data directory.
pub open spec fn config_file_name() -> Seq<char> {
    "config.json"@
}

/// Splitting a text at its last hyphen is unambiguous: if nothing after
/// either hyphen is a hyphen, equal texts have equal parts.
proof fn lemma_split_at_last_hyphen(a1: Seq<char>, b1: Seq<char>, a2: Seq<char>, b2: Seq<char>)
    requires
        a1 + seq!['-'] + b1 == a2 + seq!['-'] + b2,
        forall|i: int| 0 <= i < b1.len() ==> #[trigger] b1[i] != '-',
        forall|i: int| 0 <= i < b2.len() ==> #[trigger] b2[i] != '-',
    ensures
        a1 == a2,
        b1 == b2,
{
    let s1 = a1 + seq!['-'] + b1;
    let s2 = a2 + seq!['-'] + b2;
    assert(s1.len() == a1.len() + 1 + b1.len());
    assert(s2.len() == a2.len() + 1 + b2.len());
    if a1.len() < a2.len() {
        // the hyphen that ends a2 would lie inside b1
        let k = a2.len() as int;
        assert(s2[k] == '-');
        assert(s1[k] == b1[k - a1.len() - 1]);
        assert(false);
    }
    if a2.len() < a1.len() {
        let k = a1.len() as int;
        assert(s1[k] == '-');
        assert(s2[k] == b2[k - a2.len() - 1]);
        assert(false);
    }
    assert(a1 =~= a2) by {
        assert forall|i: int| 0 <= i < a1.len() implies a1[i] == a2[i] by {
            assert(s1[i] == a1[i]);
            assert(s2[i] == a2[i]);
        }
    }
    assert(b1 =~= b2) by {
        assert forall|i: int| 0 <= i < b1.len() implies b1[i] == b2[i] by {
            assert(s1[a1.len() + 1 + i] == b1[i]);
            assert(s2[a2.len() + 1 + i] == b2[i]);
        }
    }
}

/// No two weeks share a key: equal keys come from the same year and the
/// same week number.
pub proof fn lemma_week_key_injective(year1: int, week1: nat, year2: int, week2: nat)
    requires
        week_key(year1, week1) == week_key(year2, week2),
    ensures
        year1 == year2,
        week1 == week2,
{
    lemma_two_digit_shape(week1);
    lemma_two_digit_shape(week2);
    lemma_split_at_last_hyphen(
        signed_decimal(year1),
        two_digit(week1),
        signed_decimal(year2),
        two_digit(week2),
    );
    lemma_signed_decimal_injective(year1, year2);
    lemma_two_digit_injective(week1, week2);
}

/// No two weeks share a file: equal file names come from the same year and
/// the same week number.
pub proof fn lemma_week_file_name_injective(year1: int, week1: nat, year2: int, week2: nat)
    requires
        week_file_name(year1, week1) == week_file_name(year2, week2),
    ensures
        year1 == year2,
        week1 == week2,
{
    let k1 = week_key(year1, week1);
    let k2 = week_key(year2, week2);
    let pre = "week_"@;
    let post = ".json"@;
    let n1 = pre + k1 + post;
    let n2 = pre + k2 + post;
    assert(n1.len() == pre.len() + k1.len() + post.len());
    assert(n2.len() == pre.len() + k2.len() + post.len());
    assert(k1 =~= k2) by {
        assert forall|i: int| 0 <= i < k1.len() implies k1[i] == k2[i] by {
            assert(n1[pre.len() + i] == k1[i]);
            assert(n2[pre.len() + i] == k2[i]);
        }
    }
    lemma_week_key_injective(year1, week1, year2, week2);
}

/// The key of a week, `"{year}-{week:02}"`: the cache key and the
/// discriminating part of the week's file name.
pub fn get_week_key(year: i32, week: u32) -> (key: String)
    ensures
        key@ == week_key(year as int, week as nat),
{
    let mut key = String::new();
    push_signed_decimal(&mut key, year as i64);
    proof {
        reveal_strlit("-");
    }
    key.append("-");
    push_two_digit(&mut key, week as u64);
    assert(key@ =~= week_key(year as int, week as nat));
    key
}

/// The path of a week's file, relative to the data directory:
/// `week_{key}.json`.
pub fn get_week_file_path(year: i32, week: u32) -> (path: String)
    ensures
        path@ == week_file_name(year as int, week as nat),
{
    let key = get_week_key(year, week);
    let mut path = String::new();
    path.append("week_");
    path.append(key.as_str());
    path.append(".json");
    assert(path@ =~= week_file_name(year as int, week as nat));
    path
}

/// The path of the configuration file, relative to the data directory.
pub fn get_config_path() -> (path: String)
    ensures
        path@ == config_file_name(),
{
    String::from_str("config.json")
}

/// The name of the directory that holds the stored files, relative to the
/// user's data directory.
pub fn get_data_dir_name() -> (name: String)
    ensures
        name@ == data_dir_name(),
{
    String::from_str("BerichtGen")
}

} // verus!
