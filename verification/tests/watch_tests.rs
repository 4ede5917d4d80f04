use file_fairy::watch::{is_supported_file, EventAction, EventKind, WatchConfig, WatchRegistry};

#[test]
fn supported_extensions() {
    assert!(is_supported_file("/docs/a.txt"));
    assert!(is_supported_file("/docs/a.PDF"));
    assert!(is_supported_file("notes.md"));
    assert!(is_supported_file("/k/x.hwp"));
    assert!(!is_supported_file("/docs/archive.zip"));
    assert!(!is_supported_file("/docs/noext"));
    assert!(!is_supported_file("/docs.txt/inner"));
}

#[test]
fn watch_config_defaults() {
    let c = WatchConfig::default();
    assert!(c.recursive);
    assert!(c.process_existing_files);
}

#[test]
fn overlapping_roots_are_rejected() {
    let mut reg = WatchRegistry::new();
    assert!(reg.register_folder("/home/u/docs").is_ok());
    // the same root, an ancestor and a descendant are all refused
    assert!(reg.register_folder("/home/u/docs").is_err());
    assert!(reg.register_folder("/home/u").is_err());
    assert!(reg.register_folder("/home/u/docs/sub").is_err());
    // a sibling is fine, and a prefix that is no path ancestor is fine
    assert!(reg.register_folder("/home/u/music").is_ok());
    assert!(reg.register_folder("/home/u/docs2").is_ok());
}

#[test]
fn register_pause_resume_remove() {
    let mut reg = WatchRegistry::new();
    assert!(reg.register_folder("/home/u/docs").is_ok());
    assert!(reg.register_folder("/home/u/docs").is_err());
    assert!(reg.contains("/home/u/docs"));

    let listed = reg.list_watched_folders();
    assert_eq!(listed.len(), 1);
    assert_eq!(listed[0].path, "/home/u/docs");
    assert_eq!(listed[0].name, "docs");
    assert!(listed[0].is_active);

    assert!(reg.pause_folder("/home/u/docs").is_ok());
    assert!(!reg.list_watched_folders()[0].is_active);
    assert!(reg.resume_folder("/home/u/docs").is_ok());
    assert!(reg.list_watched_folders()[0].is_active);

    assert!(reg.pause_folder("/elsewhere").is_err());
    assert!(reg.remove_folder("/elsewhere").is_err());

    assert!(reg.remove_folder("/home/u/docs").is_ok());
    assert!(!reg.contains("/home/u/docs"));
    assert!(reg.list_watched_folders().is_empty());
}

#[test]
fn events_follow_root_state() {
    let mut reg = WatchRegistry::new();
    reg.register_folder("/w").unwrap();

    assert_eq!(
        reg.decide_event("/w", EventKind::Create, "/w/a.txt", true),
        EventAction::IndexFile
    );
    assert_eq!(
        reg.decide_event("/w", EventKind::Modify, "/w/a.txt", true),
        EventAction::IndexFile
    );
    assert_eq!(
        reg.decide_event("/w", EventKind::Remove, "/w/a.txt", false),
        EventAction::RemoveFile
    );
    assert_eq!(
        reg.decide_event("/w", EventKind::Other, "/w/a.txt", true),
        EventAction::Drop
    );
    // unsupported extension: ignored
    assert_eq!(
        reg.decide_event("/w", EventKind::Create, "/w/a.zip", true),
        EventAction::Drop
    );
    // directories are not indexed
    assert_eq!(
        reg.decide_event("/w", EventKind::Create, "/w/sub.txt", false),
        EventAction::Drop
    );

    reg.pause_folder("/w").unwrap();
    assert_eq!(
        reg.decide_event("/w", EventKind::Create, "/w/a.txt", true),
        EventAction::Drop
    );
    reg.resume_folder("/w").unwrap();
    assert_eq!(
        reg.decide_event("/w", EventKind::Create, "/w/a.txt", true),
        EventAction::IndexFile
    );
}

#[test]
fn removed_root_terminates_its_watcher() {
    let mut reg = WatchRegistry::new();
    reg.register_folder("/w").unwrap();
    reg.register_folder("/other").unwrap();
    reg.remove_folder("/w").unwrap();

    // no event on the removed root can reach the pipeline again
    for kind in [
        EventKind::Create,
        EventKind::Modify,
        EventKind::Remove,
        EventKind::Other,
    ] {
        assert_eq!(
            reg.decide_event("/w", kind, "/w/a.txt", true),
            EventAction::Terminate
        );
    }
    // the other root is untouched
    assert_eq!(
        reg.decide_event("/other", EventKind::Create, "/other/a.txt", true),
        EventAction::IndexFile
    );
}
