use ils::layout::{available_rows, compute_num_cols, grid_cols};

fn entry(name: &str, is_dir: bool) -> ils::entry::Entry {
    ils::entry::Entry { name: name.as_bytes().to_vec(), is_dir }
}

#[test]
fn list_mode_is_single_column() {
    assert_eq!(compute_num_cols(50, 300, 40, true), 1);
}

#[test]
fn one_entry_is_one_column() {
    assert_eq!(compute_num_cols(1, 300, 40, false), 1);
}

#[test]
fn nine_entries_make_a_square() {
    // max_cols = 220 / 22 = 10; c = 3 gives 3 rows: distance zero.
    assert_eq!(grid_cols(9, 220, 100), 3);
}

#[test]
fn ties_prefer_fewer_columns() {
    // n = 10: c = 3 needs 4 rows (distance 1), c = 4 needs 3 rows
    // (distance 1); the smaller column count wins the tie.
    assert_eq!(grid_cols(10, 220, 100), 3);
}

#[test]
fn no_fit_falls_back_to_the_clamped_ideal() {
    // No column count fits zero available rows; ceil(sqrt(10)) = 4.
    assert_eq!(grid_cols(10, 220, 0), 4);
}

#[test]
fn narrow_viewport_still_yields_one_column() {
    assert_eq!(compute_num_cols(100, 1, 0, false), 1);
}

#[test]
fn empty_listing_is_laid_out_as_one_cell() {
    assert!(compute_num_cols(0, 220, 40, false) >= 1);
}

#[test]
fn available_rows_subtracts_header_and_footer() {
    assert_eq!(available_rows(30, 2), 26);
    assert_eq!(available_rows(1, 5), 0);
    assert_eq!(available_rows(2, 1), 0);
}

#[test]
fn selection_uses_computed_layout() {
    let entries = vec![
        entry("a", false),
        entry("b", false),
        entry("c", false),
        entry("d", false),
        entry("e", false),
        entry("f", false),
        entry("g", false),
        entry("h", false),
        entry("i", false),
    ];
    let st = ils::selection::SelectionState::from_entries(entries, 220, 100, false);
    assert_eq!(st.num_cols, 3);
    assert_eq!(st.selected, 0);
    assert_eq!(st.scroll_offset, 0);
}
