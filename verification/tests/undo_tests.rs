use ils::undo::{FsEffect, UndoAction, UndoLog};

fn copy_action() -> UndoAction {
    UndoAction::Copy { src: b"/d/src.txt".to_vec(), dest: b"/d/dest.txt".to_vec() }
}

#[test]
fn undoing_a_copy_removes_only_the_destination() {
    let mut log = UndoLog::new();
    log.record(copy_action());
    let eff = log.begin_undo().expect("one action recorded");
    match eff {
        FsEffect::Remove { path, known_dir } => {
            assert_eq!(path, b"/d/dest.txt".to_vec());
            assert_eq!(known_dir, None);
        }
        _ => panic!("undoing a copy must remove its destination"),
    }
    log.finish(true);
    // The action moved to the redo stack; redoing re-performs the same copy.
    let eff = log.begin_redo().expect("undone action is redoable");
    match eff {
        FsEffect::CopyPath { src, dest } => {
            assert_eq!(src, b"/d/src.txt".to_vec());
            assert_eq!(dest, b"/d/dest.txt".to_vec());
        }
        _ => panic!("redoing a copy must copy again"),
    }
    log.finish(true);
    assert_eq!(log.undo.len(), 1);
    assert_eq!(log.redo.len(), 0);
}

#[test]
fn recording_invalidates_redo_history() {
    let mut log = UndoLog::new();
    log.record(copy_action());
    let _ = log.begin_undo().unwrap();
    log.finish(true);
    assert_eq!(log.redo.len(), 1);
    log.record(UndoAction::Create { path: b"/d/new".to_vec(), was_dir: false });
    assert_eq!(log.redo.len(), 0);
    assert_eq!(log.undo.len(), 1);
}

#[test]
fn a_failed_effect_drops_the_action() {
    let mut log = UndoLog::new();
    log.record(copy_action());
    let _ = log.begin_undo().unwrap();
    log.finish(false);
    assert_eq!(log.undo.len(), 0);
    assert_eq!(log.redo.len(), 0);
}

#[test]
fn undoing_a_rename_renames_back() {
    let mut log = UndoLog::new();
    log.record(UndoAction::Rename { old_path: b"/d/old".to_vec(), new_path: b"/d/new".to_vec() });
    match log.begin_undo().unwrap() {
        FsEffect::RenamePath { from, to } => {
            assert_eq!(from, b"/d/new".to_vec());
            assert_eq!(to, b"/d/old".to_vec());
        }
        _ => panic!("undoing a rename must rename back"),
    }
}

#[test]
fn undoing_a_creation_removes_what_was_created() {
    let mut log = UndoLog::new();
    log.record(UndoAction::Create { path: b"/d/made".to_vec(), was_dir: true });
    match log.begin_undo().unwrap() {
        FsEffect::Remove { path, known_dir } => {
            assert_eq!(path, b"/d/made".to_vec());
            assert_eq!(known_dir, Some(true));
        }
        _ => panic!("undoing a creation must remove it"),
    }
    log.finish(true);
    match log.begin_redo().unwrap() {
        FsEffect::CreatePath { path, is_dir } => {
            assert_eq!(path, b"/d/made".to_vec());
            assert!(is_dir);
        }
        _ => panic!("redoing a creation must create it again"),
    }
}

#[test]
fn empty_stacks_do_nothing() {
    let mut log = UndoLog::new();
    assert!(log.begin_undo().is_none());
    assert!(log.begin_redo().is_none());
}
