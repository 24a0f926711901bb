use ils::path::{display_path, join_path, parent_path};

#[test]
fn join_inserts_exactly_one_slash() {
    assert_eq!(join_path(&b"/a".to_vec(), &b"b".to_vec()), b"/a/b".to_vec());
    assert_eq!(join_path(&b"/".to_vec(), &b"b".to_vec()), b"/b".to_vec());
    assert_eq!(join_path(&b"/a/b".to_vec(), &b"c.txt".to_vec()), b"/a/b/c.txt".to_vec());
}

#[test]
fn parent_strips_the_last_component() {
    assert_eq!(parent_path(&b"/a/b".to_vec()), Some(b"/a".to_vec()));
    assert_eq!(parent_path(&b"/a".to_vec()), Some(b"/".to_vec()));
    assert_eq!(parent_path(&b"/".to_vec()), None);
    assert_eq!(parent_path(&b"relative".to_vec()), None);
}

#[test]
fn home_collapses_to_a_tilde() {
    let home = b"/home/u".to_vec();
    assert_eq!(display_path(&b"/home/u".to_vec(), &home, true), b"~".to_vec());
    assert_eq!(display_path(&b"/home/u/dl".to_vec(), &home, true), b"~/dl".to_vec());
    assert_eq!(display_path(&b"/etc".to_vec(), &home, true), b"/etc".to_vec());
    assert_eq!(display_path(&b"/home/user2".to_vec(), &home, true), b"/home/user2".to_vec());
    assert_eq!(display_path(&b"/home/u/dl".to_vec(), &home, false), b"/home/u/dl".to_vec());
}
