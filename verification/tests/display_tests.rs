use ils::display::{
    age_display, dir_preview_totals, display_name, highlight_len, perm_chars, preview_split_line,
    row_window, AgeDisplay,
};
use ils::entry::Entry;

fn entry(name: &str, is_dir: bool) -> Entry {
    Entry { name: name.as_bytes().to_vec(), is_dir }
}

#[test]
fn long_names_cut_to_a_tilde() {
    let e = entry("a_very_long_file_name.tar.gz", false);
    let shown = display_name(&e, true, true);
    assert_eq!(shown.len(), 20);
    assert_eq!(shown, b"a_very_long_file_na~".to_vec());
    let shown = display_name(&e, true, false);
    assert_eq!(shown, b"a_very_long_file_name.tar.gz".to_vec());
}

#[test]
fn directories_show_their_slash() {
    let e = entry("src", true);
    assert_eq!(display_name(&e, true, true), b"src/".to_vec());
    assert_eq!(display_name(&e, false, true), b"src".to_vec());
}

#[test]
fn the_matched_prefix_highlights() {
    assert_eq!(highlight_len(&b"re".to_vec(), &b"README.md".to_vec(), 9, true, false), 2);
    assert_eq!(highlight_len(&b"re".to_vec(), &b"notes.txt".to_vec(), 9, true, false), 0);
    assert_eq!(highlight_len(&b"re".to_vec(), &b"README.md".to_vec(), 9, false, false), 0);
    assert_eq!(highlight_len(&b"".to_vec(), &b"README.md".to_vec(), 9, true, false), 0);
    assert_eq!(highlight_len(&b"readme".to_vec(), &b"README.md".to_vec(), 3, true, false), 3);
}

#[test]
fn ages_bucket_by_unit() {
    assert_eq!(age_display(30, 0, false), AgeDisplay::Seconds(30));
    assert_eq!(age_display(90, 0, false), AgeDisplay::Minutes(1));
    assert_eq!(age_display(7200, 0, false), AgeDisplay::Hours(2));
    assert_eq!(age_display(86400 * 3, 0, false), AgeDisplay::Days(3));
    assert_eq!(age_display(2592000 * 2, 0, true), AgeDisplay::Months(2));
    assert_eq!(age_display(31536000 * 2, 0, true), AgeDisplay::Years(2));
}

#[test]
fn old_entries_show_month_and_year() {
    // 100 days after the epoch: the fourth 30-day month of 1970.
    let elapsed = 7776000; // at the three-month threshold, not verbose
    assert_eq!(
        age_display(elapsed, 86400 * 100, false),
        AgeDisplay::MonthYear { month_idx: 3, year2: 70 }
    );
}

#[test]
fn permission_bits_render_as_rwx() {
    assert_eq!(perm_chars(0o755), b"rwxr-xr-x".to_vec());
    assert_eq!(perm_chars(0o640), b"rw-r-----".to_vec());
    assert_eq!(perm_chars(0), b"---------".to_vec());
}

#[test]
fn the_row_window_stays_inside_the_listing() {
    // 10 entries in 3 columns make 4 rows.
    assert_eq!(row_window(10, 3, 0, 2), (0, 2));
    assert_eq!(row_window(10, 3, 3, 5), (3, 4));
    assert_eq!(row_window(0, 3, 0, 5), (0, 0));
}

#[test]
fn the_split_line_follows_the_percentage() {
    assert_eq!(preview_split_line(40, 0, 50), 20);
    assert_eq!(preview_split_line(42, 2, 50), 22);
    assert_eq!(preview_split_line(40, 0, 100), 0);
    assert_eq!(preview_split_line(40, 0, 0), 40);
}

#[test]
fn directory_totals_count_and_saturate() {
    let kinds = vec![true, false, false];
    let sizes = vec![10u64, 20, 30];
    assert_eq!(dir_preview_totals(&kinds, &sizes), (1, 2, 60));
    let kinds = vec![false, false];
    let sizes = vec![u64::MAX, 5];
    assert_eq!(dir_preview_totals(&kinds, &sizes), (0, 2, u64::MAX));
}
