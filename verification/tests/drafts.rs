use std::path::PathBuf;

use mrcli::drafts::{is_draft_file_name, next_draft_file_name, sort_drafts};
use mrcli::model::DraftEntry;

fn draft(name: &str) -> DraftEntry {
    DraftEntry {
        file_name: name.to_string(),
        path: PathBuf::from(format!("/tmp/drafts/{name}")),
        content: String::new(),
        modified_at: None,
    }
}

fn names(v: &[&str]) -> Vec<String> {
    v.iter().map(|s| s.to_string()).collect()
}

#[test]
fn drafts_are_listed_newest_first() {
    let sorted = sort_drafts(vec![
        draft("2026-08-20-1.sql"),
        draft("2026-08-21-1.sql"),
        draft("2026-08-20-3.sql"),
        draft("2026-08-20-2.sql"),
    ]);
    let order: Vec<&str> = sorted.iter().map(|d| d.file_name.as_str()).collect();
    assert_eq!(
        order,
        vec!["2026-08-21-1.sql", "2026-08-20-3.sql", "2026-08-20-2.sql", "2026-08-20-1.sql"]
    );
}

#[test]
fn draft_numbers_are_compared_as_numbers() {
    let sorted = sort_drafts(vec![draft("2026-08-20-9.sql"), draft("2026-08-20-10.sql")]);
    assert_eq!(sorted[0].file_name, "2026-08-20-10.sql");
    assert_eq!(sorted[1].file_name, "2026-08-20-9.sql");
    assert!(sort_drafts(vec![]).is_empty());
}

#[test]
fn drafts_named_otherwise_come_last() {
    let sorted = sort_drafts(vec![
        draft("notes.sql"),
        draft("2026-08-19-1.sql"),
        draft("2026-08-20-9.sql"),
        draft("zz.sql"),
        draft("2026-08-20-10.sql"),
    ]);
    let order: Vec<&str> = sorted.iter().map(|d| d.file_name.as_str()).collect();
    assert_eq!(
        order,
        vec!["2026-08-20-10.sql", "2026-08-20-9.sql", "2026-08-19-1.sql", "zz.sql", "notes.sql"]
    );
}

#[test]
fn first_draft_of_the_day_is_number_one() {
    let r = next_draft_file_name("2026-08-20", &names(&["2026-08-19-4.sql", "notes.txt"]));
    assert_eq!(r.as_deref(), Some("2026-08-20-1.sql"));
    let r = next_draft_file_name("2026-08-20", &Vec::new());
    assert_eq!(r.as_deref(), Some("2026-08-20-1.sql"));
}

#[test]
fn next_draft_follows_the_highest_number() {
    let existing = names(&["2026-08-20-1.sql", "2026-08-20-7.sql", "2026-08-20-3.sql"]);
    let r = next_draft_file_name("2026-08-20", &existing).unwrap();
    assert_eq!(r, "2026-08-20-8.sql");
    assert!(!existing.contains(&r));
}

#[test]
fn odd_names_of_the_day_are_skipped() {
    let existing = names(&[
        "2026-08-20-x.sql",
        "2026-08-20-.sql",
        "2026-08-20-5.sql.bak",
        "2026-08-2012.sql",
        "2026-08-20-+4.sql",
        "2026-08-20-003.sql",
    ]);
    // `+4` and `003` parse as numbers, as `str::parse::<usize>` reads them.
    let r = next_draft_file_name("2026-08-20", &existing);
    assert_eq!(r.as_deref(), Some("2026-08-20-5.sql"));
}

#[test]
fn no_name_when_the_number_would_overflow() {
    let existing = names(&[&format!("2026-08-20-{}.sql", usize::MAX)]);
    assert_eq!(next_draft_file_name("2026-08-20", &existing), None);
}

#[test]
fn only_sql_files_are_drafts() {
    assert!(is_draft_file_name("2026-08-20-1.sql"));
    assert!(is_draft_file_name("notes.v2.sql"));
    assert!(is_draft_file_name("..sql"));
    assert!(!is_draft_file_name(".sql"));
    assert!(!is_draft_file_name("query.SQL"));
    assert!(!is_draft_file_name("query.sql.bak"));
    assert!(!is_draft_file_name("sql"));
}

#[test]
fn later_days_and_higher_numbers_come_first() {
    let sorted = sort_drafts(vec![
        draft("2026-08-19-3.sql"),
        draft("2026-08-20-1.sql"),
        draft("2026-08-20-2.sql"),
        draft("2025-12-31-9.sql"),
    ]);
    let order: Vec<&str> = sorted.iter().map(|d| d.file_name.as_str()).collect();
    assert_eq!(order, vec!["2026-08-20-2.sql", "2026-08-20-1.sql", "2026-08-19-3.sql", "2025-12-31-9.sql"]);
}
