use std::cmp::Ordering;

use tg_backup::dates::day_stamp;
use tg_backup::names::{candidate, choose_batch_name, compare_by_names, latest_batch_name, parse_batch_name};

#[test]
fn test_less() {
    let ordering = compare_by_names("data-20200101-20200101.json", "data-20200101-20200102.json");
    assert_eq!(Ordering::Less, ordering)
}

#[test]
fn test_greater() {
    let ordering = compare_by_names("data-20200101-20200102.json", "data-20200101-20200101.json");
    assert_eq!(Ordering::Greater, ordering)
}

#[test]
fn test_eq() {
    let ordering = compare_by_names("data-20200101-20200101.json", "data-20200101-20200101.json");
    assert_eq!(Ordering::Equal, ordering)
}

#[test]
fn test_eq_with_adding() {
    let ordering = compare_by_names("data-20200101-20200101.json", "data-20200101-20200101-1.json");
    assert_eq!(Ordering::Less, ordering)
}

#[test]
fn test_eq_with_adding_for_both() {
    let ordering = compare_by_names("data-20200101-20200101-1.json", "data-20200101-20200101-2.json");
    assert_eq!(Ordering::Less, ordering)
}

#[test]
fn find_mat() {
    let files = vec![
        "data-20200101-20200101-1.json",
        "data-20200101-20200101-2.json",
        "data-20200101-20200102.json",
    ];
    let max = files.iter().max_by(|left, right| compare_by_names(left, right)).unwrap();
    assert_eq!("data-20200101-20200102.json", *max)
}

#[test]
fn latest_batch_name_skips_other_files() {
    let files = vec![
        String::from("notes.txt"),
        String::from("data-20200101-20200101-1.json"),
        String::from("data-20200101-20200102.json"),
        String::from("data-20200101-20200101-2.json"),
    ];
    assert_eq!(latest_batch_name(&files), Some(2));
    assert_eq!(latest_batch_name(&vec![String::from("x.json")]), None);
    assert_eq!(latest_batch_name(&vec![]), None);
}

#[test]
fn parse_batch_name_reads_day_and_suffix() {
    assert_eq!(parse_batch_name("data-20200101-20200102.json"), Some((20200102, 0)));
    assert_eq!(parse_batch_name("data-20200101-20200102-17.json"), Some((20200102, 17)));
    assert_eq!(parse_batch_name("data-20200101-20200102-.json"), None);
    assert_eq!(parse_batch_name("data-2020010-20200102.json"), None);
    assert_eq!(parse_batch_name("data-20200101-2020010x.json"), None);
    assert_eq!(parse_batch_name("info.json"), None);
    assert_eq!(parse_batch_name("data-20200101-20200102-99999999999999999999.json"), None);
}

#[test]
fn candidates_are_plain_then_numbered() {
    assert_eq!(candidate("20200101", "20200102", 0), "data-20200101-20200102.json");
    assert_eq!(candidate("20200101", "20200102", 1), "data-20200101-20200102-0.json");
    assert_eq!(candidate("20200101", "20200102", 12), "data-20200101-20200102-11.json");
}

#[test]
fn colliding_names_get_suffixes() {
    let mut taken: Vec<String> = vec![];
    let first = choose_batch_name("20200101", "20200102", &taken);
    assert_eq!(first, "data-20200101-20200102.json");
    taken.push(first);
    let second = choose_batch_name("20200101", "20200102", &taken);
    assert_eq!(second, "data-20200101-20200102-0.json");
    taken.push(second);
    let third = choose_batch_name("20200101", "20200102", &taken);
    assert_eq!(third, "data-20200101-20200102-1.json");
    let other = choose_batch_name("20200103", "20200103", &taken);
    assert_eq!(other, "data-20200103-20200103.json");
}

#[test]
fn day_stamp_writes_the_utc_day() {
    assert_eq!(day_stamp(1577836800), "20200101");
    assert_eq!(day_stamp(1577923199), "20200101");
    assert_eq!(day_stamp(1577923200), "20200102");
    assert_eq!(day_stamp(0), "19700101");
    assert_eq!(day_stamp(tg_backup::dates::MIN_TIMESTAMP), "00000101");
    assert_eq!(day_stamp(tg_backup::dates::MAX_TIMESTAMP), "99991231");
}
