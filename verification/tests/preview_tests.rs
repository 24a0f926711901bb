use ils::preview::{
    classify, poll_pdf, scroll_pos, scroll_preview_down, scroll_preview_up, FileKind, PathMap,
    PreviewState,
};

#[test]
fn first_poll_spawns_one_job_and_later_polls_none() {
    let mut cache: PathMap<PreviewState> = PathMap::new();
    let path = b"/docs/paper.pdf".to_vec();
    // First request: a loading placeholder shows and one job starts.
    assert!(poll_pdf(&mut cache, &path));
    assert!(matches!(cache.get(&path), Some(PreviewState::Loading)));
    // A redraw while the job runs starts no second job.
    assert!(!poll_pdf(&mut cache, &path));
    // The worker stores the extracted lines; a later poll serves them
    // without spawning anything.
    cache.set(path.clone(), PreviewState::Loaded(vec!["line one".to_string()]));
    assert!(!poll_pdf(&mut cache, &path));
    match cache.get(&path) {
        Some(PreviewState::Loaded(lines)) => assert_eq!(lines, &vec!["line one".to_string()]),
        _ => panic!("the stored lines must still be cached"),
    }
}

#[test]
fn a_failed_extraction_is_cached_too() {
    let mut cache: PathMap<PreviewState> = PathMap::new();
    let path = b"/docs/broken.pdf".to_vec();
    assert!(poll_pdf(&mut cache, &path));
    cache.set(path.clone(), PreviewState::Error("Cannot extract PDF text".to_string()));
    assert!(!poll_pdf(&mut cache, &path));
    assert!(matches!(cache.get(&path), Some(PreviewState::Error(_))));
}

#[test]
fn paths_are_cached_independently() {
    let mut cache: PathMap<PreviewState> = PathMap::new();
    let a = b"/a.pdf".to_vec();
    let b = b"/b.pdf".to_vec();
    assert!(poll_pdf(&mut cache, &a));
    assert!(poll_pdf(&mut cache, &b));
    assert!(!poll_pdf(&mut cache, &a));
}

#[test]
fn extensions_route_previews() {
    assert_eq!(classify(&b"a.png".to_vec()), FileKind::Image);
    assert_eq!(classify(&b"a.JPG".to_vec()), FileKind::Image);
    assert_eq!(classify(&b"a.jpeg".to_vec()), FileKind::Image);
    assert_eq!(classify(&b"a.gif".to_vec()), FileKind::Image);
    assert_eq!(classify(&b"a.bmp".to_vec()), FileKind::Image);
    assert_eq!(classify(&b"a.webp".to_vec()), FileKind::Image);
    assert_eq!(classify(&b"paper.pdf".to_vec()), FileKind::Pdf);
    assert_eq!(classify(&b"paper.PDF".to_vec()), FileKind::Pdf);
    assert_eq!(classify(&b"notes.txt".to_vec()), FileKind::Text);
    assert_eq!(classify(&b"README".to_vec()), FileKind::Text);
    assert_eq!(classify(&b".bashrc".to_vec()), FileKind::Text);
    assert_eq!(classify(&b"archive.tar.gz".to_vec()), FileKind::Text);
}

#[test]
fn preview_scrolling_is_bounded() {
    let mut map: PathMap<usize> = PathMap::new();
    let path = b"/f.txt".to_vec();
    assert_eq!(scroll_pos(&map, &path), 0);
    // 100 lines, 10 visible: the position can reach 90 and no further.
    scroll_preview_down(&mut map, &path, 50, 100, 10);
    assert_eq!(scroll_pos(&map, &path), 50);
    scroll_preview_down(&mut map, &path, 50, 100, 10);
    assert_eq!(scroll_pos(&map, &path), 90);
    scroll_preview_up(&mut map, &path, 30);
    assert_eq!(scroll_pos(&map, &path), 60);
    scroll_preview_up(&mut map, &path, 1000);
    assert_eq!(scroll_pos(&map, &path), 0);
}
