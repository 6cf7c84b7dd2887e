use file_guard::fuse_fs::fuse_interceptor::{
    allow_other, file_guard_mountpoints, has_stale_mount, mount_source, prepare_mountpoint,
    removed_file, rollback_path, unescape_mount_field, FuseInterceptor, PrepareAction, RollbackAction,
    StartAction, StartEvent,
};
use file_guard::path::FilePath;

#[test]
fn unescape_decodes_octal_whitespace() {
    assert_eq!(unescape_mount_field("/a/b"), "/a/b");
    assert_eq!(unescape_mount_field("/a\\040b"), "/a b"); // space
    assert_eq!(unescape_mount_field("/a\\134b"), "/a\\b"); // backslash
    assert_eq!(unescape_mount_field("trailing\\04"), "trailing\\04"); // not a full escape
}

#[test]
fn unescape_handles_edges() {
    assert_eq!(unescape_mount_field(""), "");
    assert_eq!(unescape_mount_field("\\011\\012"), "\t\n");
    assert_eq!(unescape_mount_field("\\134040"), "\\040");
    assert_eq!(unescape_mount_field("\\089x"), "\\089x");
    assert_eq!(unescape_mount_field("\\303\\251"), "é");
    assert_eq!(unescape_mount_field("a\\377b"), "a\u{fffd}b");
    assert_eq!(unescape_mount_field("\\501"), "A");
}

#[test]
fn finds_only_file_guard_fuse_mounts() {
    let proc_mounts = "\
proc /proc proc rw,nosuid 0 0
file-guard /home/u/.config/gcloud/credentials.db fuse rw,nosuid,allow_other 0 0
file-guard /home/u/with\\040space/adc.json fuse.file-guard rw 0 0
/dev/sda1 / ext4 rw 0 0
other-fuse /mnt/x fuse rw 0 0
";
    let mounts = file_guard_mountpoints(proc_mounts);
    assert_eq!(
        mounts,
        vec![
            "/home/u/.config/gcloud/credentials.db".to_string(),
            "/home/u/with space/adc.json".to_string(),
        ],
        "must match file-guard fuse mounts only, decoding escapes"
    );
}

#[test]
fn malformed_mount_lines_are_skipped() {
    assert!(file_guard_mountpoints("").is_empty());
    assert!(file_guard_mountpoints("file-guard /x\n\nfile-guard\n").is_empty());
    assert!(file_guard_mountpoints("file-guard /x ext4 rw").is_empty());
    assert_eq!(file_guard_mountpoints("file-guard /x fuse"), vec!["/x".to_string()]);
}

#[test]
fn stale_mounts_are_found_by_their_path() {
    let mounts = "file-guard /home/u/a\\040b fuse rw 0 0\n";
    assert!(has_stale_mount(mounts, &FilePath::from_text("/home/u/a b")));
    assert!(!has_stale_mount(mounts, &FilePath::from_text("/home/u/a")));
    assert!(!has_stale_mount("", &FilePath::from_text("/home/u/a b")));
    assert_eq!(mount_source(), "file-guard");
    assert!(allow_other(0));
    assert!(!allow_other(1000));
}

fn shape(actions: &[PrepareAction]) -> Vec<String> {
    actions
        .iter()
        .map(|a| match a {
            PrepareAction::Capture(c) => format!("capture {}", String::from_utf8_lossy(c)),
            PrepareAction::Remove => "remove".to_string(),
            PrepareAction::CreateParent => "parent".to_string(),
            PrepareAction::CreateEmpty => "empty".to_string(),
        })
        .collect()
}

#[test]
fn new_contents_are_captured_before_they_are_removed() {
    let actions = prepare_mountpoint(false, Some(b"new".to_vec()), None).unwrap();
    assert_eq!(shape(&actions), ["capture new", "remove", "empty"]);
    let actions =
        prepare_mountpoint(false, Some(b"new".to_vec()), Some(b"old".to_vec())).unwrap();
    assert_eq!(shape(&actions), ["capture new", "remove", "empty"]);
}

#[test]
fn known_contents_and_leftovers_are_not_captured() {
    let actions =
        prepare_mountpoint(false, Some(b"same".to_vec()), Some(b"same".to_vec())).unwrap();
    assert_eq!(shape(&actions), ["remove", "empty"]);
    let actions = prepare_mountpoint(false, Some(vec![]), Some(b"old".to_vec())).unwrap();
    assert_eq!(shape(&actions), ["remove", "empty"]);
    let actions = prepare_mountpoint(false, None, Some(b"old".to_vec())).unwrap();
    assert_eq!(shape(&actions), ["parent", "empty"]);
}

#[test]
fn symlinks_are_refused() {
    assert!(prepare_mountpoint(true, Some(b"x".to_vec()), None).is_err());
}

#[test]
fn rollback_puts_contents_back_or_removes_the_mountpoint() {
    assert!(matches!(rollback_path(Some(b"x".to_vec())), RollbackAction::PutBack(c) if c == b"x"));
    assert!(matches!(rollback_path(None), RollbackAction::RemoveMountpoint));
}

fn interceptor(restore: bool) -> FuseInterceptor {
    let paths = vec![FilePath::from_text("/a"), FilePath::from_text("/b")];
    FuseInterceptor::new(paths, restore)
}

#[test]
fn a_start_mounts_every_path() {
    let mut i = interceptor(true);
    assert_eq!(i.path_count(), 2);
    assert!(i.path(1).same_as(&FilePath::from_text("/b")));
    assert!(i.stop().is_empty());
    assert!(matches!(i.start(), Ok(StartAction::Prepare(0))));
    assert_eq!(i.start_next(StartEvent::Prepared), StartAction::Mount(0));
    assert_eq!(i.start_next(StartEvent::Prepared), StartAction::Ignore);
    assert_eq!(i.start_next(StartEvent::Mounted), StartAction::Prepare(1));
    assert_eq!(i.start_next(StartEvent::Mounted), StartAction::Ignore);
    assert_eq!(i.start_next(StartEvent::Prepared), StartAction::Mount(1));
    assert_eq!(i.start_next(StartEvent::Mounted), StartAction::Finished);
    assert_eq!(i.start_next(StartEvent::MountFailed), StartAction::Ignore);
    assert!(i.start().is_err());
    let stopped = i.stop();
    assert_eq!(stopped.len(), 2);
    assert!(stopped[0].restore && stopped[1].restore);
    assert_eq!(stopped[0].path, FilePath::from_text("/a"));
    assert_eq!(stopped[1].path, FilePath::from_text("/b"));
    assert!(i.stop().is_empty());
    assert!(i.start().is_err());
}

fn at_second_path() -> FuseInterceptor {
    let mut i = interceptor(false);
    i.start().unwrap();
    i.start_next(StartEvent::Prepared);
    i.start_next(StartEvent::Mounted);
    i
}

#[test]
fn a_failed_start_is_undone() {
    // Refused, or failed before the file was removed: the path is left alone.
    let mut i = at_second_path();
    assert_eq!(
        i.start_next(StartEvent::PrepareFailed { removed: false }),
        StartAction::RollBack { mounted: 1, prepared: 1 }
    );
    assert!(i.stop().is_empty());

    // Failed after its file was removed: it is put back too.
    let mut i = at_second_path();
    assert_eq!(i.start_next(StartEvent::MountFailed), StartAction::Ignore);
    assert_eq!(
        i.start_next(StartEvent::PrepareFailed { removed: true }),
        StartAction::RollBack { mounted: 1, prepared: 2 }
    );

    let mut i = at_second_path();
    i.start_next(StartEvent::Prepared);
    assert_eq!(
        i.start_next(StartEvent::MountFailed),
        StartAction::RollBack { mounted: 1, prepared: 2 }
    );
    assert!(i.start().is_err());
}

#[test]
fn a_failed_preparation_leaves_the_file_on_disk() {
    for in_store in [None, Some(b"old".to_vec()), Some(b"new".to_vec())] {
        let actions =
            prepare_mountpoint(false, Some(b"new".to_vec()), in_store.clone()).unwrap();
        for done in 0..actions.len() {
            let (mut disk, mut store) = (Some(b"new".to_vec()), in_store.clone());
            for action in &actions[..done] {
                match action {
                    PrepareAction::Capture(c) => store = Some(c.clone()),
                    PrepareAction::Remove => disk = None,
                    PrepareAction::CreateParent => {}
                    PrepareAction::CreateEmpty => disk = Some(vec![]),
                }
            }
            assert_eq!(removed_file(&actions, done), disk.is_none());
            if removed_file(&actions, done) {
                disk = match rollback_path(store) {
                    RollbackAction::PutBack(c) => Some(c),
                    RollbackAction::RemoveMountpoint => None,
                };
            }
            assert_eq!(disk.as_deref(), Some(&b"new"[..]));
        }
    }
}

#[test]
fn nothing_to_watch_starts_at_once() {
    let mut i = FuseInterceptor::new(vec![], false);
    assert!(matches!(i.start(), Ok(StartAction::Finished)));
    assert!(i.stop().is_empty());
}

#[test]
fn contents_are_restored_only_if_asked() {
    let mut i = interceptor(false);
    i.start().unwrap();
    for _ in 0..2 {
        i.start_next(StartEvent::Prepared);
        i.start_next(StartEvent::Mounted);
    }
    assert!(i.stop().iter().all(|s| !s.restore));
}
