use castr::config::{
    action_from_word, checked_parse_size_bytes, parse_overflow_action, parse_size_bytes,
    size_in_bytes,
};
use castr::types::RecordOverflowAction;

#[test]
fn sizes_have_units() {
    assert_eq!(parse_size_bytes("100MB"), 104_857_600);
    assert_eq!(parse_size_bytes("1GB"), 1_073_741_824);
    assert_eq!(parse_size_bytes("1G"), 1_073_741_824);
    assert_eq!(parse_size_bytes("5M"), 5_242_880);
    assert_eq!(parse_size_bytes("512KB"), 524_288);
    assert_eq!(parse_size_bytes("512K"), 524_288);
    assert_eq!(parse_size_bytes("2048B"), 2048);
    assert_eq!(parse_size_bytes("2048"), 2048);
    assert_eq!(parse_size_bytes("0"), 0);
    assert_eq!(parse_size_bytes("+3kb"), 3072);
}

#[test]
fn sizes_ignore_case_and_blanks_around() {
    assert_eq!(parse_size_bytes("  2gb\n"), 2_147_483_648);
    assert_eq!(parse_size_bytes("7Mb"), 7_340_032);
    assert_eq!(parse_size_bytes("9b"), 9);
    assert_eq!(parse_size_bytes(" 2g "), parse_size_bytes("2G"));
    assert_eq!(parse_size_bytes("\u{a0}\u{e9}kb"), parse_size_bytes("\u{e9}KB\t"));
}

#[test]
fn unreadable_sizes_have_defaults() {
    assert_eq!(parse_size_bytes("GB"), 1_073_741_824);
    assert_eq!(parse_size_bytes("xG"), 1_073_741_824);
    assert_eq!(parse_size_bytes("1.5MB"), 104_857_600);
    assert_eq!(parse_size_bytes("m"), 104_857_600);
    assert_eq!(parse_size_bytes("manyKB"), 102_400_000);
    assert_eq!(parse_size_bytes("k"), 102_400_000);
    assert_eq!(parse_size_bytes("B"), 104_857_600);
    assert_eq!(parse_size_bytes(""), 104_857_600);
    assert_eq!(parse_size_bytes("lots"), 104_857_600);
    assert_eq!(parse_size_bytes("5 MB"), 104_857_600);
    assert_eq!(parse_size_bytes("99999999999999999999"), 104_857_600);
}

#[test]
fn sizes_that_do_not_fit_are_none() {
    assert_eq!(checked_parse_size_bytes("17179869183GB"), Some(18_446_744_072_635_809_792));
    assert_eq!(checked_parse_size_bytes("17179869184GB"), None);
    assert_eq!(checked_parse_size_bytes("18446744073709551615"), Some(u64::MAX));
    assert_eq!(checked_parse_size_bytes("18446744073709551615K"), None);
    assert_eq!(checked_parse_size_bytes("100MB"), Some(104_857_600));
}

#[test]
fn sizes_in_capitals_are_read_as_they_stand() {
    assert_eq!(size_in_bytes("3MB"), Some(3_145_728));
    assert_eq!(size_in_bytes("3mb"), Some(104_857_600));
    assert_eq!(size_in_bytes("18446744073709551615G"), None);
}

#[test]
fn words_for_what_happens_to_full_recordings() {
    assert_eq!(parse_overflow_action("delete"), RecordOverflowAction::Delete);
    assert_eq!(parse_overflow_action(" DEL "), RecordOverflowAction::Delete);
    assert_eq!(parse_overflow_action("archive"), RecordOverflowAction::Archive);
    assert_eq!(parse_overflow_action(""), RecordOverflowAction::Archive);
    assert_eq!(parse_overflow_action("deleted"), RecordOverflowAction::Archive);
    assert_eq!(action_from_word("del"), RecordOverflowAction::Delete);
    assert_eq!(action_from_word("DEL"), RecordOverflowAction::Archive);
}
