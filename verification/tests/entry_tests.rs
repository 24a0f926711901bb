use ils::entry::{build_entries, name_le, sort_entries, Entry};

fn entry(name: &str, is_dir: bool) -> Entry {
    Entry { name: name.as_bytes().to_vec(), is_dir }
}

fn names(v: &Vec<Entry>) -> Vec<String> {
    v.iter().map(|e| String::from_utf8(e.name.clone()).unwrap()).collect()
}

#[test]
fn directories_sort_before_files() {
    // A directory named `z` still lists before the files `a.txt`, `b.txt`.
    let raw = vec![entry("b.txt", false), entry("a.txt", false), entry("z", true)];
    let out = build_entries(raw, false);
    assert_eq!(names(&out), vec!["z", "a.txt", "b.txt"]);
}

#[test]
fn hidden_entries_drop_unless_shown() {
    let raw = vec![entry(".git", true), entry("src", true), entry(".env", false)];
    let out = build_entries(raw, false);
    assert_eq!(names(&out), vec!["src"]);
    let raw = vec![entry(".git", true), entry("src", true), entry(".env", false)];
    let out = build_entries(raw, true);
    assert_eq!(names(&out), vec![".git", "src", ".env"]);
}

#[test]
fn sort_is_lexicographic_within_a_group() {
    let raw = vec![
        entry("bb", false),
        entry("b", false),
        entry("ba", false),
        entry("a", false),
    ];
    let out = sort_entries(raw);
    assert_eq!(names(&out), vec!["a", "b", "ba", "bb"]);
}

#[test]
fn name_order_is_bytewise() {
    assert!(name_le(&b"a".to_vec(), &b"ab".to_vec()));
    assert!(name_le(&b"ab".to_vec(), &b"b".to_vec()));
    assert!(!name_le(&b"b".to_vec(), &b"ab".to_vec()));
    assert!(name_le(&b"".to_vec(), &b"a".to_vec()));
    assert!(name_le(&b"same".to_vec(), &b"same".to_vec()));
}

#[test]
fn equal_names_keep_both_entries() {
    let raw = vec![entry("dup", false), entry("dup", false)];
    let out = build_entries(raw, false);
    assert_eq!(out.len(), 2);
}
