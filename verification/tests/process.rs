use file_guard::path::FilePath;
use file_guard::process::identify::{
    identify, parent_chain, script_of, ProcessEntry, MAX_PARENTS,
};
use file_guard::process::linux::{self, StartTimeError};
use file_guard::process::macos;

#[test]
fn processes_are_identified() {
    let info = identify::<()>(
        7,
        Ok(FilePath::from_text("/usr/bin/aws")),
        Ok(99),
        Some(FilePath::from_text("/s.py")),
        vec![],
        Some("sig".to_string()),
    )
    .unwrap();
    assert_eq!(info.pid, 7);
    assert_eq!(info.start_time, 99);
    assert_eq!(info.binary_name, "aws");
    assert_eq!(info.binary_path, FilePath::from_text("/usr/bin/aws"));
    assert_eq!(info.script, Some(FilePath::from_text("/s.py")));
    assert_eq!(info.code_signature.as_deref(), Some("sig"));

    let nameless = identify::<()>(7, Ok(FilePath::from_text("/")), Ok(1), None, vec![], None);
    assert_eq!(nameless.unwrap().binary_name, "pid:7");
    let odd = FilePath::from_bytes(b"/bin/\xff".to_vec());
    let odd = identify::<()>(7, Ok(odd), Ok(1), None, vec![], None);
    assert_eq!(odd.unwrap().binary_name, "\u{fffd}");
}

#[test]
fn the_first_missing_part_is_the_error() {
    let path = || FilePath::from_text("/bin/x");
    assert_eq!(identify(1, Err("exe"), Err("stat"), None, vec![], None).unwrap_err(), "exe");
    assert_eq!(identify(1, Ok(path()), Err("stat"), None, vec![], None).unwrap_err(), "stat");
}

#[test]
fn scripts_are_found_on_the_command_line() {
    let script = |binary: &str, cmdline: &[u8], cwd: Option<&str>| {
        script_of(&FilePath::from_text(binary), cmdline, &cwd.map(FilePath::from_text))
            .map(|p| p.to_text())
    };
    let found = |text: &str| Some(text.to_string());
    let py = "/usr/bin/python3.12";
    assert_eq!(script(py, b"python3\0/opt/a.py\0-x\0", None), found("/opt/a.py"));
    assert_eq!(script(py, b"python3\0a.py\0", Some("/home/u")), found("/home/u/a.py"));
    assert_eq!(script(py, b"python3\0/opt/a.py\0", Some("/home/u")), found("/opt/a.py"));
    assert_eq!(script("/bin/sh", b"sh\0./run\0", Some("/w")), found("/w/./run"));
    // Undetermined: a relative path from an unknown place, an option, nothing.
    assert_eq!(script(py, b"python3\0a.py\0", None), None);
    assert_eq!(script(py, b"python3\0-c\0print()\0", Some("/w")), None);
    assert_eq!(script(py, b"python3\0", Some("/w")), None);
    assert_eq!(script(py, b"", Some("/w")), None);
    // Not an interpreter.
    assert_eq!(script("/bin/cat", b"cat\0/f\0", Some("/w")), None);
    assert_eq!(script("/", b"x\0/f\0", Some("/w")), None);
}

fn entry(pid: u32, parent: Option<u32>, name: &str) -> ProcessEntry {
    ProcessEntry {
        pid,
        parent,
        name: name.to_string(),
        exe: Some(FilePath::from_text(&format!("/bin/{name}"))),
    }
}

#[test]
fn parents_are_walked_up_to_the_first_process() {
    let table = vec![
        entry(1, Some(0), "init"),
        entry(10, Some(1), "sh"),
        entry(20, Some(10), "aws"),
        entry(30, Some(77), "lost"),
    ];
    let chain = parent_chain(&table, 20);
    let names: Vec<&str> = chain.iter().map(|p| p.name.as_str()).collect();
    assert_eq!(names, ["sh", "init"]);
    assert_eq!((chain[0].pid, chain[1].pid), (10, 1));
    assert_eq!(chain[0].binary_path, Some(FilePath::from_text("/bin/sh")));
    assert!(parent_chain(&table, 1).is_empty());
    assert!(parent_chain(&table, 999).is_empty());
    // A parent that is not in the table is listed without a name.
    let chain = parent_chain(&table, 30);
    assert_eq!(chain.len(), 1);
    assert_eq!((chain[0].pid, chain[0].name.as_str()), (77, ""));
    assert!(chain[0].binary_path.is_none());
    // A cycle is cut off.
    let cycle = vec![entry(5, Some(5), "x")];
    assert_eq!(parent_chain(&cycle, 5).len(), MAX_PARENTS);
    assert_eq!(MAX_PARENTS, 16);
}

fn stat(start: &str) -> String {
    let before = "S 1 2 3 4 5 6 7 8 9 10 11 12 13 14 15 16 17 18";
    format!("42 (a) b) {before} {start} 20 21\n")
}

#[test]
fn start_times_are_read_from_stat() {
    assert!(linux::readable_stat(&stat("250")));
    assert_eq!(linux::start_time(&stat("250"), 100), Ok(2_500_000_000));
    assert_eq!(linux::start_time(&stat("x"), 100), Err(StartTimeError::BadNumber));
    assert_eq!(linux::start_time(&stat("250"), 0), Err(StartTimeError::BadClock));
    assert_eq!(linux::start_time("42 (a) S 1", 100), Err(StartTimeError::MissingField));
    assert_eq!(linux::start_time("42 a S 1", 100), Err(StartTimeError::NoClosingParen));
    assert!(!linux::readable_stat("42 (a)"));
    assert_eq!(linux::exe_link(42), "/proc/42/exe");
    assert_eq!(linux::stat_file(42), "/proc/42/stat");
    assert_eq!(linux::code_signature(42), None);
}

#[test]
fn macos_start_times_are_read_from_the_report() {
    let mut buf = vec![0u8; 1024];
    buf[136..144].copy_from_slice(&3i64.to_le_bytes());
    buf[144..148].copy_from_slice(&5i32.to_le_bytes());
    assert_eq!(macos::start_time(&buf, 648).unwrap(), 3_000_005_000);
    assert_eq!(macos::start_time(&buf, 147).unwrap_err().size, 147);
    assert!(macos::start_time(&buf, 148).is_ok());
}

#[test]
fn macos_signatures_are_the_first_identifier() {
    let out = b"Executable=/bin/x\nIdentifier=com.example.x\nIdentifier=second\n";
    assert_eq!(macos::code_signature(out).as_deref(), Some("com.example.x"));
    assert_eq!(macos::code_signature(b"no such thing\n"), None);
    assert_eq!(macos::code_signature(b"\xff\nIdentifier=\xff\n").as_deref(), Some("\u{fffd}"));
}
