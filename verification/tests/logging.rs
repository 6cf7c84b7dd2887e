use file_guard::logging::{log_lines, read_recent, well_formed, AccessLogEntry, AccessLogger, Sink};
use file_guard::path::FilePath;
use file_guard::policy::rule::{Access, Decision};
use file_guard::process::identify::ProcessInfo;

fn process() -> ProcessInfo {
    ProcessInfo {
        pid: 42,
        start_time: 1,
        binary_path: FilePath::from_text("/bin/cat"),
        binary_name: "cat".to_string(),
        script: None,
        parent_chain: vec![],
        code_signature: None,
    }
}

#[test]
fn entries_are_shown_in_columns() {
    let mut entry = AccessLogEntry {
        timestamp: "T".to_string(),
        decision: "ALLOW".to_string(),
        access: "WRITE".to_string(),
        file: "/f".to_string(),
        binary: "/bin/x".to_string(),
        pid: 7,
        detail: Some("why".to_string()),
    };
    assert_eq!(entry.to_text(), "T  ALLOW WRITE /f ← /bin/x (pid 7) [why]");
    entry.decision = "DENY".to_string();
    entry.access = "ACCESS".to_string();
    entry.detail = None;
    assert_eq!(entry.to_text(), "T  DENY  ACCESS /f ← /bin/x (pid 7)");
}

#[test]
fn destinations_name_a_sink() {
    for dest in ["", "stdout", "journal", "  stdout\n", "\t"] {
        assert!(matches!(AccessLogger::new(dest, &None).sink, Sink::Stdout));
    }
    let home = Some(FilePath::from_text("/home/a"));
    match AccessLogger::new(" ~/log/fg.log ", &home).sink {
        Sink::File(path) => assert_eq!(path.as_bytes(), b"/home/a/log/fg.log"),
        Sink::Stdout => panic!("a path is a file"),
    }
    match AccessLogger::new("Stdout", &home).sink {
        Sink::File(path) => assert_eq!(path.as_bytes(), b"Stdout"),
        Sink::Stdout => panic!("a path is a file"),
    }
}

#[test]
fn accesses_are_logged() {
    let file = FilePath::from_text("/f");
    let logger = AccessLogger::new("stdout", &None);
    let record = logger.log(
        &process(),
        &file,
        Access::Read,
        &Decision::DenyOnce,
        &Some("no".to_string()),
        "T",
    );
    assert_eq!(record.message, "DENY READ /f ← /bin/cat (pid 42) [no]");
    assert!(record.entry.is_none());

    let logger = AccessLogger::new("/log", &None);
    for (decision, word) in [
        (Decision::AllowAlways, "ALLOW"),
        (Decision::AllowSession, "ALLOW"),
        (Decision::AllowOnce, "ALLOW"),
        (Decision::DenyAlways, "DENY"),
        (Decision::DenyOnce, "DENY"),
    ] {
        let record = logger.log(&process(), &file, Access::Write, &decision, &None, "T");
        let entry = record.entry.unwrap();
        assert_eq!(entry.decision, word);
        assert_eq!(entry.access, "WRITE");
        assert_eq!(entry.timestamp, "T");
        assert_eq!(entry.file, "/f");
        assert_eq!(entry.binary, "/bin/cat");
        assert_eq!(entry.pid, 42);
        assert_eq!(entry.detail, None);
        assert_eq!(record.message, format!("{word} WRITE /f ← /bin/cat (pid 42)"));
    }
    let record = logger.log(&process(), &file, Access::Any, &Decision::AllowOnce, &None, "T");
    assert_eq!(record.entry.unwrap().access, "ACCESS");
}

#[test]
fn logs_are_read_line_by_line() {
    assert_eq!(log_lines("a\nb\r\nc\nd"), ["a", "b", "c", "d"]);
    assert_eq!(log_lines("a\n\n"), ["a", ""]);
    assert!(log_lines("").is_empty());
}

/// Lines that have been parsed: a number is an entry with that pid.
fn parsed(lines: &[Option<u32>]) -> Vec<Option<AccessLogEntry>> {
    lines
        .iter()
        .map(|line| {
            line.map(|pid| AccessLogEntry {
                timestamp: "T".to_string(),
                decision: "DENY".to_string(),
                access: "READ".to_string(),
                file: "/f".to_string(),
                binary: "/bin/x".to_string(),
                pid,
                detail: None,
            })
        })
        .collect()
}

fn pids(entries: &[AccessLogEntry]) -> Vec<u32> {
    entries.iter().map(|e| e.pid).collect()
}

#[test]
fn recent_entries_come_oldest_first() {
    let log = [Some(1), Some(2), None, Some(3), None];
    assert_eq!(pids(&read_recent(parsed(&log), 2)), [2, 3]);
    assert_eq!(pids(&read_recent(parsed(&log), 10)), [1, 2, 3]);
    assert!(read_recent(parsed(&log), 0).is_empty());
    assert!(read_recent(parsed(&[]), 3).is_empty());
    // A malformed line does not count.
    assert_eq!(pids(&read_recent(parsed(&[Some(7), None]), 1)), [7]);
    assert_eq!(pids(&well_formed(parsed(&log))), [1, 2, 3]);
}
