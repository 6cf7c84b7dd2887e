use file_guard::config::{Config, DefaultAction, PromptMethod, Settings, WatchEntry};
use file_guard::control::{
    follow_interval, follow_log, fuse_mounts, parse_mountinfo_line, recorded_pid, running_pid,
    status, stop, stop_interval, tail_log, unescape_mountinfo, DaemonState, StopWait,
    STATUS_ENTRIES, STOP_PROBES,
};
use file_guard::logging::AccessLogEntry;
use file_guard::path::FilePath;

fn config(watch: &[&str], log_destination: &str) -> Config {
    Config {
        settings: Settings {
            default_action: DefaultAction::Deny,
            prompt_timeout: 30,
            prompt_method: PromptMethod::Terminal,
            restore_on_stop: false,
            log_destination: log_destination.to_string(),
        },
        watch: watch
            .iter()
            .map(|p| WatchEntry { path: p.to_string(), default_action: None })
            .collect(),
        rule: vec![],
    }
}

#[test]
fn detects_file_guard_fuse_mount() {
    let line = "40 35 0:44 / /home/a/.aws/credentials rw,nosuid,nodev,relatime \
                shared:1 - fuse file-guard rw,user_id=0,group_id=0";
    assert_eq!(
        parse_mountinfo_line(line),
        Some(FilePath::from_text("/home/a/.aws/credentials"))
    );
}

#[test]
fn ignores_other_mounts() {
    let ext4 = "23 1 8:1 / / rw,relatime - ext4 /dev/sda1 rw";
    let other_fuse = "40 35 0:44 / /mnt rw - fuse sshfs rw";
    assert_eq!(parse_mountinfo_line(ext4), None);
    assert_eq!(parse_mountinfo_line(other_fuse), None);
}

#[test]
fn unescapes_spaces_in_mountpoint() {
    let line = "40 35 0:44 / /home/a/My\\040Secrets rw - fuse file-guard rw";
    assert_eq!(
        parse_mountinfo_line(line),
        Some(FilePath::from_text("/home/a/My Secrets"))
    );
}

#[test]
fn mountinfo_edges() {
    assert_eq!(unescape_mountinfo("a\\040b\\011c\\012d\\134e"), "a b\tc\nd\\e");
    assert_eq!(unescape_mountinfo("\\134040"), "\\040");
    assert_eq!(unescape_mountinfo("plain"), "plain");
    assert_eq!(parse_mountinfo_line(""), None);
    assert_eq!(parse_mountinfo_line("1 2 3 4 - fuse file-guard rw"), None);
    assert_eq!(parse_mountinfo_line("1 2 3 4 /m - fuse"), None);
    // The first separator counts.
    assert_eq!(parse_mountinfo_line("1 2 3 4 /m - ext4 x - fuse file-guard"), None);
    assert_eq!(
        parse_mountinfo_line("1 2 3 4 /m - fuse.file-guard file-guard"),
        Some(FilePath::from_text("/m"))
    );
    let mounts = fuse_mounts(
        "1 2 3 4 /m - fuse file-guard rw\n23 1 8:1 / / rw - ext4 /dev/sda1 rw\n\
         1 2 3 4 /n - fuse file-guard rw\n",
    );
    assert_eq!(mounts, vec![FilePath::from_text("/m"), FilePath::from_text("/n")]);
}

#[test]
fn pid_files_are_parsed() {
    assert_eq!(recorded_pid("123\n"), Some(123));
    assert_eq!(recorded_pid(&format!("{}\n", u32::MAX)), Some(u32::MAX));
    assert_eq!(recorded_pid("  +7 "), Some(7));
    assert_eq!(recorded_pid("4294967295"), Some(u32::MAX));
    assert_eq!(recorded_pid("4294967296"), None);
    assert_eq!(recorded_pid(""), None);
    assert_eq!(recorded_pid("12 3"), None);
    assert_eq!(recorded_pid("-1"), None);
    assert_eq!(running_pid(Some(5), true), DaemonState::Running(5));
    assert_eq!(running_pid(Some(5), false), DaemonState::Stale);
    assert_eq!(running_pid(None, true), DaemonState::Unknown);
}

#[test]
fn stopping_waits_fifteen_seconds() {
    assert_eq!(stop(0, false), StopWait::Stopped);
    assert_eq!(stop(149, false), StopWait::Stopped);
    let mut pauses: u64 = 0;
    let mut probe = 0;
    loop {
        pauses += 1;
        if stop(probe, true) == StopWait::GiveUp {
            break;
        }
        probe += 1;
    }
    assert_eq!(pauses, u64::from(STOP_PROBES));
    assert_eq!(pauses * stop_interval().as_millis(), 15_000);
}

#[test]
fn status_of_a_running_daemon() {
    let config = config(&["~/.aws/credentials", "/etc/key"], " /var/log/fg.log ");
    let entry = AccessLogEntry {
        timestamp: "2024-01-01T00:00:00+00:00".to_string(),
        decision: "DENY".to_string(),
        access: "READ".to_string(),
        file: "/etc/key".to_string(),
        binary: "/bin/cat".to_string(),
        pid: 42,
        detail: None,
    };
    let lines = status(
        &config,
        &Some(FilePath::from_text("/home/a")),
        Some(77),
        &vec![FilePath::from_text("/home/a//.aws/credentials")],
        &vec![entry],
    );
    assert_eq!(
        lines,
        [
            "daemon:  running (pid 77)",
            "",
            "watched files:",
            "  [    mounted]  /home/a/.aws/credentials",
            "  [not mounted]  /etc/key",
            "",
            "recent access (audit log: /var/log/fg.log):",
            "  2024-01-01T00:00:00+00:00  DENY  READ  /etc/key ← /bin/cat (pid 42)",
        ]
    );
    assert_eq!(STATUS_ENTRIES, 10);
}

#[test]
fn status_without_anything() {
    let lines = status(&config(&[], "stdout"), &None, None, &vec![], &vec![]);
    assert_eq!(
        lines,
        [
            "daemon:  not running",
            "",
            "watched files:",
            "  (none configured)",
            "",
            "recent access (audit log: stdout):",
            "  (audit log goes to the journal; set log_destination to a file path)",
        ]
    );
    let lines = status(&config(&[], "/x"), &None, None, &vec![], &vec![]);
    assert_eq!(lines.last().unwrap(), "  (no entries)");
}

#[test]
fn only_a_log_file_can_be_printed() {
    for dest in ["", "stdout", " journal "] {
        assert!(tail_log(&config(&[], dest), &None).is_err());
    }
    assert_eq!(
        tail_log(&config(&[], "~/fg.log"), &Some(FilePath::from_text("/home/a"))).unwrap(),
        FilePath::from_text("/home/a/fg.log")
    );
}

#[test]
fn following_prints_what_was_appended() {
    let step = follow_log(10, Some(25));
    assert_eq!((step.read_from, step.offset), (Some(10), 25));
    let step = follow_log(25, Some(25));
    assert_eq!((step.read_from, step.offset), (None, 25));
    let step = follow_log(25, None);
    assert_eq!((step.read_from, step.offset), (None, 25));
    // Rotated: from the top.
    let step = follow_log(25, Some(4));
    assert_eq!((step.read_from, step.offset), (Some(0), 4));
    let step = follow_log(25, Some(0));
    assert_eq!((step.read_from, step.offset), (None, 0));
    assert_eq!(follow_interval().as_millis(), 500);
}
