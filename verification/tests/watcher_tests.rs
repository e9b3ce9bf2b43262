use taildrop_notifier::watcher::{classify_event, is_partial_file, FsEvent, FsEventKind};

fn s(x: &str) -> String {
    x.to_string()
}

#[test]
fn partial_marker_is_detected() {
    assert!(is_partial_file(&s("video.mp4.partial")));
    assert!(is_partial_file(&s("/var/lib/tailscale/files/video.mp4.partial")));
    assert!(is_partial_file(&s("a.b.partial")));
}

#[test]
fn final_names_are_not_partial() {
    assert!(!is_partial_file(&s("photo.jpg")));
    assert!(!is_partial_file(&s("/var/lib/tailscale/files/photo.jpg")));
    assert!(!is_partial_file(&s("partial")));
    assert!(!is_partial_file(&s("mypartial")));
}

#[test]
fn bare_marker_name_has_no_extension() {
    // A name that is nothing but ".partial" is a hidden file without an
    // extension, not a file still being written.
    assert!(!is_partial_file(&s(".partial")));
    assert!(!is_partial_file(&s("/spool/.partial")));
}

#[test]
fn marker_in_directory_name_does_not_count() {
    assert!(!is_partial_file(&s("dir.partial/file.txt")));
}

#[test]
fn rename_to_event_filters_partial_paths() {
    let ev = FsEvent {
        kind: FsEventKind::RenameTo,
        paths: vec![s("/spool/photo.jpg"), s("/spool/video.mp4.partial"), s("/spool/doc.pdf")],
    };
    let arrivals = classify_event(&ev);
    assert_eq!(arrivals, vec![s("/spool/photo.jpg"), s("/spool/doc.pdf")]);
}

#[test]
fn partial_path_never_becomes_arrival() {
    let ev = FsEvent {
        kind: FsEventKind::RenameTo,
        paths: vec![s("/spool/video.mp4.partial")],
    };
    assert_eq!(classify_event(&ev), Vec::<String>::new());
}

#[test]
fn all_final_paths_become_arrivals_one_each() {
    let paths = vec![s("/spool/a.txt"), s("/spool/b.txt"), s("/spool/c.txt")];
    let ev = FsEvent { kind: FsEventKind::RenameTo, paths: paths.clone() };
    let arrivals = classify_event(&ev);
    assert_eq!(arrivals.len(), 3);
    assert_eq!(arrivals, paths);
}

#[test]
fn non_rename_events_yield_nothing() {
    let ev = FsEvent {
        kind: FsEventKind::Other,
        paths: vec![s("/spool/photo.jpg")],
    };
    assert_eq!(classify_event(&ev), Vec::<String>::new());
}

#[test]
fn empty_event_yields_nothing() {
    let ev = FsEvent { kind: FsEventKind::RenameTo, paths: vec![] };
    assert_eq!(classify_event(&ev), Vec::<String>::new());
}
