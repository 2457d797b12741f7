use director_brain::adapters::handoff::mapping::{parse_timestamp, task_to_wire};
use director_brain::digest::hex_text;
use director_brain::path::{normalized, PathStyle};
use director_brain::text::{
    contains_text, decimal_text, eq_ignoring_case, split_words, string_of, trim_chars,
};
use director_brain::time::{MAX_SECS, MIN_SECS};
use director_brain::{Task, TaskId, Timestamp};

fn at(secs: i64, nanos: u32) -> Timestamp {
    Timestamp::from_unix(secs, nanos).unwrap()
}

#[test]
fn instants_have_a_range() {
    assert!(Timestamp::from_unix(MAX_SECS, 999_999_999).is_some());
    assert!(Timestamp::from_unix(MIN_SECS, 0).is_some());
    assert!(Timestamp::from_unix(MAX_SECS + 1, 0).is_none());
    assert!(Timestamp::from_unix(MIN_SECS - 1, 0).is_none());
    assert!(Timestamp::from_unix(0, 2_000_000_000).is_none());
}

#[test]
fn only_the_last_second_of_a_minute_can_be_a_leap_second() {
    assert!(Timestamp::from_unix(59, 1_500_000_000).is_some());
    assert!(Timestamp::from_unix(58, 1_500_000_000).is_none());
    assert!(Timestamp::from_unix(-1, 1_000_000_000).is_some());
}

#[test]
fn instants_are_ordered() {
    assert!(at(1, 5).is_before(at(2, 0)));
    assert!(at(1, 5).is_before(at(1, 6)));
    assert!(!at(1, 5).is_before(at(1, 5)));
    assert_eq!(at(-7, 3).unix_secs(), -7);
    assert_eq!(at(-7, 3).subsec_nanos(), 3);
    let now = Timestamp::now();
    assert!(at(1_600_000_000, 0).is_before(now));
}

#[test]
fn times_are_written_with_an_offset_and_read_back() {
    let mut task = Task::new(TaskId::from_string("T"), "t", "o");
    task.created_at = at(1790278457, 427288500);
    task.updated_at = at(0, 0);
    let wire = task_to_wire(&task);
    assert_eq!(wire.created_at, "2026-09-24T19:34:17.427288500+00:00");
    assert_eq!(wire.updated_at, "1970-01-01T00:00:00+00:00");
    assert_eq!(parse_timestamp(&wire.created_at), Some(task.created_at));
    assert_eq!(parse_timestamp(&wire.updated_at), Some(task.updated_at));
}

#[test]
fn paths_have_a_normal_form() {
    let form = |path: &str| normalized(PathStyle::Unix, path);
    assert_eq!(form("/repo//./x/"), "/repo/x");
    assert_eq!(form("repo/x"), "repo/x");
    assert_eq!(form("./repo"), "./repo");
    assert_eq!(form("/"), "/");
    assert_eq!(form("a/../b"), "a/../b");
    assert_eq!(form("C:\\repo"), "C:\\repo");
}

#[test]
fn bytes_are_written_in_hexadecimal() {
    assert_eq!(hex_text(&vec![0x00, 0xab, 0x1f, 0xff], 3), "00ab1f");
}

#[test]
fn texts_are_taken_apart() {
    assert_eq!(decimal_text(0), "0");
    assert_eq!(decimal_text(u64::MAX), "18446744073709551615");
    assert!(contains_text("already exists", "exists"));
    assert!(!contains_text("exist", "exists"));
    assert_eq!(string_of(&trim_chars("\u{2003} a b\n")), "a b");
    let words: Vec<String> = split_words(" one \t two ").iter().map(string_of).collect();
    assert_eq!(words, vec!["one", "two"]);
    let chars = |s: &str| s.chars().collect::<Vec<char>>();
    assert!(eq_ignoring_case(&chars("PayMents"), &chars("payments")));
    assert!(!eq_ignoring_case(&chars("Ä"), &chars("ä")));
}

#[test]
fn windows_paths_have_a_normal_form() {
    let form = |path: &str| normalized(PathStyle::Windows, path);
    assert_eq!(form("C:\\repo"), "C:/repo");
    assert_eq!(form("c:/repo//./x\\"), "C:/repo/x");
    assert_eq!(form("C:"), "C:");
    assert_eq!(form("C:\\"), "C:/");
    assert_eq!(form("C:repo"), "C:repo");
    assert_eq!(form("C:.\\repo"), "C:./repo");
    assert_eq!(form("repo\\x"), "repo/x");
    assert_eq!(form("\\repo"), "/repo");
    assert_eq!(form("\\\\server\\share"), "//server/share/");
    assert_eq!(form("//server/share/./x/"), "//server/share/x");
    assert_eq!(form("//server//share"), "/server/share");
    assert_eq!(form("\\\\?\\c:\\repo\\.\\x\\"), "\\\\?\\C:\\repo\\.\\x");
    assert_eq!(form("\\\\?\\C:"), "\\\\?\\C:");
    assert_eq!(form("//?/C:/repo"), "//?/C:/repo");
    assert_eq!(form(""), "");
}

#[test]
fn a_style_goes_by_the_backslash() {
    assert_eq!(PathStyle::by_backslash(true), PathStyle::Windows);
    assert_eq!(PathStyle::by_backslash(false), PathStyle::Unix);
}
