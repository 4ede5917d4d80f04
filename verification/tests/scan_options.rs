use file_fairy::scan::ScanOptions;

#[test]
fn test_default_options() {
    let options = ScanOptions::default();
    assert!(options.recursive);
    assert!(options.max_depth.is_none());
    assert!(!options.follow_symlinks);
    assert!(options.max_file_size.is_none());
}

#[test]
fn test_builder_pattern() {
    let options = ScanOptions::new()
        .with_recursive(false)
        .with_max_depth(3)
        .with_follow_symlinks(true)
        .with_max_file_size(1024);

    assert!(!options.recursive);
    assert_eq!(options.max_depth, Some(3));
    assert!(options.follow_symlinks);
    assert_eq!(options.max_file_size, Some(1024));
}

#[test]
fn test_size_filtering() {
    let options = ScanOptions::new().with_max_file_size(1024);

    assert!(options.should_process_file_size(512));
    assert!(options.should_process_file_size(1024));
    assert!(!options.should_process_file_size(2048));
}

#[test]
fn test_depth_filtering() {
    let options = ScanOptions::new().with_max_depth(2);

    assert!(options.should_process_depth(0));
    assert!(options.should_process_depth(1));
    assert!(!options.should_process_depth(2));
    assert!(!options.should_process_depth(3));
}

#[test]
fn test_symlink_handling() {
    let follow = ScanOptions::new().with_follow_symlinks(true);
    let no_follow = ScanOptions::new().with_follow_symlinks(false);

    assert!(follow.should_follow_symlink(true));
    assert!(follow.should_follow_symlink(false));

    assert!(!no_follow.should_follow_symlink(true));
    assert!(no_follow.should_follow_symlink(false));
}
