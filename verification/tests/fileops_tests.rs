use ils::fileops::{
    dec_digits, parse_confirm_input, parse_create_input, parse_rename_input, resolve_paste_name,
    sibling_target, sort_names,
};

#[test]
fn sibling_names_sort_lexicographically() {
    let out = sort_names(vec![b"b".to_vec(), b"a".to_vec(), b"c".to_vec()]);
    assert_eq!(out, vec![b"a".to_vec(), b"b".to_vec(), b"c".to_vec()]);
}

#[test]
fn sibling_steps_wrap_at_both_ends() {
    let sorted = sort_names(vec![b"a".to_vec(), b"b".to_vec(), b"c".to_vec()]);
    assert_eq!(sibling_target(&sorted, &b"b".to_vec(), true), Some(b"c".to_vec()));
    assert_eq!(sibling_target(&sorted, &b"c".to_vec(), true), Some(b"a".to_vec()));
    assert_eq!(sibling_target(&sorted, &b"a".to_vec(), false), Some(b"c".to_vec()));
    assert_eq!(sibling_target(&sorted, &b"b".to_vec(), false), Some(b"a".to_vec()));
}

#[test]
fn lone_or_unknown_directories_have_no_sibling() {
    let one = sort_names(vec![b"only".to_vec()]);
    assert_eq!(sibling_target(&one, &b"only".to_vec(), true), None);
    let sorted = sort_names(vec![b"a".to_vec(), b"b".to_vec()]);
    assert_eq!(sibling_target(&sorted, &b"zz".to_vec(), true), None);
}

#[test]
fn a_free_name_pastes_as_itself() {
    let existing = vec![b"other.txt".to_vec()];
    assert_eq!(resolve_paste_name(&existing, &b"f.txt".to_vec()), b"f.txt".to_vec());
}

#[test]
fn a_taken_name_counts_up_from_one() {
    let existing = vec![b"f.txt".to_vec()];
    assert_eq!(resolve_paste_name(&existing, &b"f.txt".to_vec()), b"f (1).txt".to_vec());
    let existing = vec![b"f.txt".to_vec(), b"f (1).txt".to_vec()];
    assert_eq!(resolve_paste_name(&existing, &b"f.txt".to_vec()), b"f (2).txt".to_vec());
}

#[test]
fn a_name_without_extension_counts_up_bare() {
    let existing = vec![b"notes".to_vec()];
    assert_eq!(resolve_paste_name(&existing, &b"notes".to_vec()), b"notes (1)".to_vec());
}

#[test]
fn create_input_trims_and_reads_the_slash() {
    assert_eq!(parse_create_input(&b"  dir/ ".to_vec()), Some((b"dir/".to_vec(), true)));
    assert_eq!(parse_create_input(&b"file.txt".to_vec()), Some((b"file.txt".to_vec(), false)));
    assert_eq!(parse_create_input(&b"   ".to_vec()), None);
}

#[test]
fn rename_input_refuses_empty_and_unchanged_names() {
    assert_eq!(parse_rename_input(&b"  new ".to_vec(), &b"old".to_vec()), Some(b"new".to_vec()));
    assert_eq!(parse_rename_input(&b"old".to_vec(), &b"old".to_vec()), None);
    assert_eq!(parse_rename_input(&b"  ".to_vec(), &b"old".to_vec()), None);
}

#[test]
fn only_a_lone_y_confirms() {
    assert!(parse_confirm_input(&b"y".to_vec()));
    assert!(parse_confirm_input(&b" Y ".to_vec()));
    assert!(!parse_confirm_input(&b"yes".to_vec()));
    assert!(!parse_confirm_input(&b"n".to_vec()));
    assert!(!parse_confirm_input(&b"".to_vec()));
}

#[test]
fn decimal_digits_render_exactly() {
    assert_eq!(dec_digits(0), b"0".to_vec());
    assert_eq!(dec_digits(7), b"7".to_vec());
    assert_eq!(dec_digits(10), b"10".to_vec());
    assert_eq!(dec_digits(12345), b"12345".to_vec());
}
