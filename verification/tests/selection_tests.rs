use ils::entry::Entry;
use ils::selection::{Dir, SelectionState};

fn entries(n: usize) -> Vec<Entry> {
    (0..n)
        .map(|i| Entry { name: format!("f{:02}", i).into_bytes(), is_dir: false })
        .collect()
}

fn grid_3x3() -> SelectionState {
    // width 66 allows 3 cells; 7 entries then prefer 3 columns (3 rows).
    let st = SelectionState::from_entries(entries(7), 66, 50, false);
    assert_eq!(st.num_cols, 3);
    st
}

#[test]
fn moves_are_row_major() {
    let mut st = grid_3x3();
    st.select_down();
    assert_eq!(st.selected, 3);
    st.select_right();
    assert_eq!(st.selected, 4);
    st.select_left();
    assert_eq!(st.selected, 3);
    st.select_up();
    assert_eq!(st.selected, 0);
}

#[test]
fn left_refuses_at_row_start_and_right_at_row_end() {
    let mut st = grid_3x3();
    st.select_left();
    assert_eq!(st.selected, 0);
    st.select_right();
    st.select_right();
    assert_eq!(st.selected, 2);
    st.select_right();
    assert_eq!(st.selected, 2);
}

#[test]
fn down_refuses_past_the_last_row() {
    let mut st = grid_3x3();
    st.select_down();
    st.select_down();
    assert_eq!(st.selected, 6);
    st.select_down();
    assert_eq!(st.selected, 6);
}

#[test]
fn scrolling_follows_the_selection() {
    // One column (width 22), two visible rows.
    let mut st = SelectionState::from_entries(entries(9), 22, 2, false);
    assert_eq!(st.num_cols, 1);
    assert_eq!(st.visible_rows, 2);
    for _ in 0..4 {
        st.select_down();
    }
    assert_eq!(st.selected, 4);
    assert_eq!(st.scroll_offset, 3);
    for _ in 0..4 {
        st.select_up();
    }
    assert_eq!(st.selected, 0);
    assert_eq!(st.scroll_offset, 0);
}

#[test]
fn every_move_keeps_selection_in_bounds() {
    let mut st = SelectionState::from_entries(entries(7), 66, 2, false);
    let moves = [
        Dir::Down,
        Dir::Down,
        Dir::Right,
        Dir::Down,
        Dir::Up,
        Dir::Left,
        Dir::Left,
        Dir::Up,
        Dir::Up,
        Dir::Right,
    ];
    for d in moves {
        st.move_dir(d);
        assert!(st.selected < 7);
        let row = st.selected / st.num_cols;
        assert!(st.scroll_offset <= row);
        assert!(row < st.scroll_offset + st.visible_rows);
    }
}

#[test]
fn jumps_stop_silently_at_the_boundary() {
    let mut st = SelectionState::from_entries(entries(9), 22, 50, false);
    st.jump(Dir::Down, 5);
    assert_eq!(st.selected, 5);
    st.jump(Dir::Down, 100);
    assert_eq!(st.selected, 8);
    st.jump(Dir::Up, 100);
    assert_eq!(st.selected, 0);
}

#[test]
fn layout_change_clamps_the_selection() {
    let mut st = SelectionState::from_entries(entries(9), 22, 50, false);
    st.jump(Dir::Down, 8);
    assert_eq!(st.selected, 8);
    st.set_layout(66, 2, true);
    assert_eq!(st.num_cols, 1);
    assert_eq!(st.selected, 8);
    let row = st.selected / st.num_cols;
    assert!(st.scroll_offset <= row && row < st.scroll_offset + st.visible_rows);
}
