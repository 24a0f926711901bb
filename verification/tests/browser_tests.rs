use ils::browser::{
    Browser, FsErrorKind, FuzzyOutcome, Key, KeyAction, Mode, OpenOutcome,
};
use ils::config::{ColorConfig, Config, Keybindings, Settings};
use ils::entry::Entry;
use ils::selection::Dir;

fn entry(name: &str, is_dir: bool) -> Entry {
    Entry { name: name.as_bytes().to_vec(), is_dir }
}

fn config() -> Config {
    Config {
        keybindings: Keybindings::default(),
        colors: ColorConfig::default(),
        settings: Settings::default(),
    }
}

fn browser_at(dir: &str, listing: Vec<Entry>) -> Browser {
    let mut b = Browser::new(config(), dir.as_bytes().to_vec(), 220, 40, 0, false, 50, None);
    b.reload(dir.as_bytes().to_vec(), Ok(listing), 220, 38);
    b
}

fn names(b: &Browser) -> Vec<String> {
    b.sel.entries.iter().map(|e| String::from_utf8(e.name.clone()).unwrap()).collect()
}

#[test]
fn a_failed_reload_changes_nothing_but_the_error() {
    let mut b = browser_at("/start", vec![entry("z", true), entry("a.txt", false)]);
    b.sel.select_right();
    let old_names = names(&b);
    let old_selected = b.sel.selected;
    let old_scroll = b.sel.scroll_offset;

    b.reload(b"/start/z".to_vec(), Err(FsErrorKind::PermissionDenied), 220, 38);

    // Selection, entries and current directory are exactly as before the
    // attempt, and a permission-specific message is available.
    assert_eq!(b.current_dir, b"/start".to_vec());
    assert_eq!(names(&b), old_names);
    assert_eq!(b.sel.selected, old_selected);
    assert_eq!(b.sel.scroll_offset, old_scroll);
    let hint = b.error_hint().expect("an error message is available");
    assert_eq!(
        hint,
        "Permission denied. Grant Full Disk Access to your terminal in System Settings > Privacy & Security."
    );
    // Any key press dismisses it.
    b.clear_error();
    assert!(b.error_hint().is_none());
}

#[test]
fn other_errors_have_a_generic_message() {
    let mut b = browser_at("/start", vec![entry("a", false)]);
    b.reload(b"/start/x".to_vec(), Err(FsErrorKind::Other), 220, 38);
    assert_eq!(b.error_hint().unwrap(), "Cannot access the selected path.");
    b.reload(b"/start/y".to_vec(), Err(FsErrorKind::NotFound), 220, 38);
    assert_eq!(b.error_hint().unwrap(), "Cannot access the selected path.");
    assert_eq!(b.current_dir, b"/start".to_vec());
}

#[test]
fn narrowing_to_one_match_auto_navigates() {
    // Typing `d` narrows two entries down to the unique `docs`; with
    // jump-on-unique the browser ends up inside it with an empty query.
    let mut b = browser_at("/start", vec![entry("docs", true), entry("notes.txt", false)]);
    b.fuzzy_enter_mode(true);
    let outcome = b.fuzzy_type(&b"d".to_vec());
    assert_eq!(outcome, FuzzyOutcome::AutoOpen);
    assert_eq!(b.sel.selected, 0);

    // The caller performs the open the outcome asked for.
    match b.open_target() {
        OpenOutcome::EnterDir(p) => {
            assert_eq!(p, b"/start/docs".to_vec());
            b.reload(p, Ok(vec![entry("inner.txt", false)]), 220, 38);
        }
        _ => panic!("the unique match is a directory"),
    }
    b.fuzzy_after_open();

    assert_eq!(b.current_dir, b"/start/docs".to_vec());
    assert!(matches!(b.mode, Mode::Normal));
    assert_eq!(names(&b), vec!["inner.txt"]);
}

#[test]
fn stay_mode_keeps_searching_after_the_jump() {
    let mut b = browser_at("/start", vec![entry("docs", true), entry("notes.txt", false)]);
    b.fuzzy_enter_mode(false);
    assert_eq!(b.fuzzy_type(&b"d".to_vec()), FuzzyOutcome::AutoOpen);
    let p = match b.open_target() {
        OpenOutcome::EnterDir(p) => p,
        _ => panic!("the unique match is a directory"),
    };
    b.reload(p, Ok(vec![entry("x", false), entry("y", false)]), 220, 38);
    b.fuzzy_after_open();
    match &b.mode {
        Mode::FuzzyFind { query, jump_on_unique, prev_match_count } => {
            assert!(query.is_empty());
            assert!(!jump_on_unique);
            assert_eq!(*prev_match_count, 2);
        }
        _ => panic!("stay mode remains in fuzzy find"),
    }
}

#[test]
fn ambiguous_queries_only_narrow() {
    let mut b = browser_at(
        "/start",
        vec![entry("docs", true), entry("dot.txt", false), entry("notes.txt", false)],
    );
    b.fuzzy_enter_mode(true);
    assert_eq!(b.fuzzy_type(&b"d".to_vec()), FuzzyOutcome::Stay);
    match &b.mode {
        Mode::FuzzyFind { query, prev_match_count, .. } => {
            assert_eq!(query, &b"d".to_vec());
            assert_eq!(*prev_match_count, 2);
        }
        _ => panic!("still in fuzzy find"),
    }
}

#[test]
fn backspace_snaps_but_never_navigates() {
    let mut b = browser_at("/start", vec![entry("docs", true), entry("notes.txt", false)]);
    b.fuzzy_enter_mode(true);
    assert_eq!(b.fuzzy_type(&b"n".to_vec()), FuzzyOutcome::AutoOpen);
    // Pretend the open was a file, so the browser stayed put; clear fuzzy
    // and start again with a two-character query.
    b.fuzzy_escape();
    b.fuzzy_enter_mode(true);
    let _ = b.fuzzy_type(&b"x".to_vec());
    b.fuzzy_backspace();
    match &b.mode {
        Mode::FuzzyFind { query, prev_match_count, .. } => {
            assert!(query.is_empty());
            assert_eq!(*prev_match_count, 0);
        }
        _ => panic!("still in fuzzy find"),
    }
    assert_eq!(b.current_dir, b"/start".to_vec());
}

#[test]
fn the_clipboard_remembers_the_selected_path() {
    let mut b = browser_at("/start", vec![entry("z", true), entry("a.txt", false)]);
    b.sel.select_down();
    b.copy_to_clipboard();
    assert_eq!(b.clipboard, Some(b"/start/a.txt".to_vec()));
}

#[test]
fn removal_keeps_the_cursor_near_its_place() {
    let mut b = browser_at("/d", vec![entry("a", false), entry("b", false), entry("c", false)]);
    b.sel.select_down();
    let old_selected = b.sel.selected;
    assert_eq!(old_selected, 2);
    // The entry was removed outside; the listing reloads one shorter.
    b.reload(b"/d".to_vec(), Ok(vec![entry("a", false), entry("b", false)]), 220, 38);
    b.clamp_selection_after_removal(old_selected);
    assert_eq!(b.sel.selected, 1);
}

#[test]
fn help_swallows_any_key() {
    let mut b = Browser::new(config(), b"/".to_vec(), 220, 40, 0, true, 50, None);
    assert_eq!(b.interpret_key(Key::Char('w'), false), KeyAction::DismissHelp);
    assert_eq!(b.interpret_key(Key::Esc, false), KeyAction::DismissHelp);
    b.dismiss_help();
    assert!(matches!(b.mode, Mode::Normal));
}

#[test]
fn normal_mode_follows_the_bindings() {
    let b = browser_at("/", vec![entry("a", false)]);
    assert_eq!(b.interpret_key(Key::Char('w'), false), KeyAction::MoveSel(Dir::Up));
    assert_eq!(b.interpret_key(Key::Char('s'), false), KeyAction::MoveSel(Dir::Down));
    assert_eq!(b.interpret_key(Key::Char('q'), false), KeyAction::QuitCd);
    assert_eq!(b.interpret_key(Key::Char('Q'), false), KeyAction::QuitOpenInFinder);
    assert_eq!(b.interpret_key(Key::Char('l'), false), KeyAction::Open);
    assert_eq!(b.interpret_key(Key::Char('j'), false), KeyAction::Back);
    assert_eq!(b.interpret_key(Key::Char('?'), false), KeyAction::ToggleHelp);
    assert_eq!(b.interpret_key(Key::Char('!'), false), KeyAction::ToggleHelp);
    assert_eq!(b.interpret_key(Key::Char('/'), false), KeyAction::EnterFuzzy { jump: true });
    assert_eq!(b.interpret_key(Key::Char('/'), true), KeyAction::EnterFuzzy { jump: false });
    assert_eq!(b.interpret_key(Key::Char('z'), false), KeyAction::Undo);
    assert_eq!(b.interpret_key(Key::Char('Z'), false), KeyAction::Redo);
    assert_eq!(b.interpret_key(Key::Esc, false), KeyAction::QuitNone);
    assert_eq!(b.interpret_key(Key::Enter, false), KeyAction::EnterOpen);
    assert_eq!(b.interpret_key(Key::Char('k'), false), KeyAction::EnterOpen);
    assert_eq!(b.interpret_key(Key::Backspace, false), KeyAction::Back);
    assert_eq!(b.interpret_key(Key::Char(' '), false), KeyAction::CycleSpace);
    assert_eq!(b.interpret_key(Key::Char('W'), false), KeyAction::Jump(Dir::Up));
    assert_eq!(b.interpret_key(Key::Char('I'), false), KeyAction::PreviewScrollUp { page: true });
}

#[test]
fn fuzzy_mode_interprets_keys_its_own_way() {
    let mut b = browser_at("/", vec![entry("a", false)]);
    b.fuzzy_enter_mode(true);
    assert_eq!(b.interpret_key(Key::Esc, false), KeyAction::FuzzyExit);
    assert_eq!(b.interpret_key(Key::Char('q'), false), KeyAction::QuitCd);
    assert_eq!(b.interpret_key(Key::Char('/'), false), KeyAction::FuzzyBack);
    assert_eq!(b.interpret_key(Key::Char('?'), false), KeyAction::FuzzyHome);
    assert_eq!(b.interpret_key(Key::Char('x'), false), KeyAction::FuzzyType('x'));
    assert_eq!(b.interpret_key(Key::Backspace, false), KeyAction::FuzzyBackspace);
    assert_eq!(b.interpret_key(Key::Enter, false), KeyAction::FuzzyEnter);
    assert_eq!(b.interpret_key(Key::Up, false), KeyAction::MoveSel(Dir::Up));
}

#[test]
fn list_info_cycles_and_preview_toggles() {
    let mut b = browser_at("/", vec![entry("a", false)]);
    assert_eq!(b.list_info_mode, 0);
    b.cycle_space();
    b.cycle_space();
    assert_eq!(b.list_info_mode, 2);
    b.cycle_space();
    b.cycle_space();
    assert_eq!(b.list_info_mode, 0);
    b.toggle_preview();
    assert!(b.preview_mode);
    assert!(b.show_line_numbers);
    b.cycle_space();
    assert!(!b.show_line_numbers);
    assert_eq!(b.list_info_mode, 0);
}

#[test]
fn the_preview_split_moves_in_tenths_within_bounds() {
    let mut b = browser_at("/", vec![entry("a", false)]);
    b.toggle_preview();
    assert_eq!(b.preview_split_percent, 50);
    for _ in 0..5 {
        b.preview_shrink();
    }
    assert_eq!(b.preview_split_percent, 20);
    for _ in 0..9 {
        b.preview_grow();
    }
    assert_eq!(b.preview_split_percent, 100);
}

#[test]
fn hidden_toggle_changes_what_a_reload_keeps() {
    let mut b = browser_at("/d", vec![entry(".hid", false), entry("vis", false)]);
    assert_eq!(names(&b), vec!["vis"]);
    b.toggle_hidden();
    b.reload(
        b"/d".to_vec(),
        Ok(vec![entry(".hid", false), entry("vis", false)]),
        220,
        38,
    );
    assert_eq!(names(&b), vec![".hid", "vis"]);
}

#[test]
fn relayout_recomputes_the_columns() {
    let mut b = browser_at(
        "/d",
        (0..9).map(|i| entry(&format!("f{}", i), false)).collect(),
    );
    assert_eq!(b.sel.num_cols, 3);
    // A narrower viewport leaves room for one cell only.
    b.update_layout(22, 38);
    assert_eq!(b.sel.num_cols, 1);
    b.update_layout(220, 38);
    assert_eq!(b.sel.num_cols, 3);
    // List mode always uses one column, whatever the width.
    b.toggle_list_mode(220, 38);
    assert_eq!(b.sel.num_cols, 1);
    b.toggle_list_mode(220, 38);
    assert_eq!(b.sel.num_cols, 3);
}

#[test]
fn a_fresh_browser_starts_empty_at_the_top() {
    let b = Browser::new(config(), b"/d".to_vec(), 220, 40, 0, false, 50, None);
    assert!(b.sel.entries.is_empty());
    assert_eq!(b.sel.selected, 0);
    assert_eq!(b.sel.scroll_offset, 0);
}

#[test]
fn opening_a_file_hands_the_path_out() {
    let b = browser_at("/d", vec![entry("file.txt", false)]);
    match b.open_target() {
        OpenOutcome::OpenFile(p) => assert_eq!(p, b"/d/file.txt".to_vec()),
        _ => panic!("a file opens as a file"),
    }
    let empty = browser_at("/d", vec![]);
    assert!(matches!(empty.open_target(), OpenOutcome::Nothing));
}
