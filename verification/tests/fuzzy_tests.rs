use ils::entry::Entry;
use ils::fuzzy::{fuzzy_match, name_matches, pop_char};

fn entry(name: &str, is_dir: bool) -> Entry {
    Entry { name: name.as_bytes().to_vec(), is_dir }
}

#[test]
fn matching_folds_case_by_default() {
    // Query `re` matches `README.md` but not `notes.txt`.
    assert!(name_matches(&b"re".to_vec(), &b"README.md".to_vec(), false));
    assert!(!name_matches(&b"re".to_vec(), &b"notes.txt".to_vec(), false));
}

#[test]
fn case_sensitive_search_does_not_fold() {
    assert!(!name_matches(&b"re".to_vec(), &b"README.md".to_vec(), true));
    assert!(name_matches(&b"RE".to_vec(), &b"README.md".to_vec(), true));
}

#[test]
fn matcher_reports_first_index_and_count() {
    let entries = vec![
        entry("notes.txt", false),
        entry("README.md", false),
        entry("readme.html", false),
    ];
    let (first, count) = fuzzy_match(&entries, &b"re".to_vec(), false);
    assert_eq!(first, Some(1));
    assert_eq!(count, 2);
}

#[test]
fn empty_query_matches_nothing() {
    let entries = vec![entry("a", false)];
    let (first, count) = fuzzy_match(&entries, &b"".to_vec(), false);
    assert_eq!(first, None);
    assert_eq!(count, 0);
}

#[test]
fn longer_query_than_name_does_not_match() {
    assert!(!name_matches(&b"abcd".to_vec(), &b"ab".to_vec(), false));
}

#[test]
fn pop_char_removes_one_ascii_character() {
    let mut q = b"ab".to_vec();
    pop_char(&mut q);
    assert_eq!(q, b"a".to_vec());
}

#[test]
fn pop_char_removes_a_whole_multibyte_character() {
    let mut q = "aé".as_bytes().to_vec();
    assert_eq!(q.len(), 3);
    pop_char(&mut q);
    assert_eq!(q, b"a".to_vec());
    let mut empty: Vec<u8> = Vec::new();
    pop_char(&mut empty);
    assert!(empty.is_empty());
}
