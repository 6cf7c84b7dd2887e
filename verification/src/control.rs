//! Out-of-process control of a running daemon: `stop`, `status`, and `log`.
//! These run as a separate short-lived `file-guard` invocation and locate the
//! daemon via its PID file and the audit log via the config.
use crate::config::{expanded, Config, WatchEntry};
use crate::fuse_fs::fuse_interceptor::mount_source;
use crate::logging::{
    entry_text, is_journal, log_file, log_views, AccessLogEntry, AccessLogger, EntryView, Sink,
};
use crate::path::{contains_path, lists_path, opt_path, path_list, text_of_bytes, FilePath};
use crate::text::{
    chars_of, copy_range, decimal, decimal_string, find, find_chars, has_prefix, is_digit,
    is_first_occurrence, is_text, is_white, law_trimming_takes_white_ends_off,
    lemma_decimal_digits, lemma_decimal_round_trip, lemma_split_first, lines, occurs_at, pad_left, padded_left, parse_decimal, parse_number,
    replace_all, replace_chars, split_chars, split_lines, split_on, starts_with, strings,
    text_of, texts, trim, trim_chars, trim_end, trim_start,
};
use crate::time::TimeSpan;
use vstd::prelude::*;
use vstd::string::*;
use vstd::utf8::*;

verus! {

// ---------------------------------------------------------------------------
// The daemon's process
// ---------------------------------------------------------------------------

/// The PID that a PID file records.
pub open spec fn pid_in(contents: Seq<char>) -> Option<nat> {
    parse_number(trim(contents), u32::MAX as nat)
}

/// The PID that a PID file's `contents` record.
pub fn recorded_pid(contents: &str) -> (r: Option<u32>)
    ensures
        match r {
            Some(pid) => pid_in(contents@) == Some(pid as nat),
            None => pid_in(contents@) is None,
        },
{
    let text = trim_chars(&chars_of(contents));
    match parse_decimal(&text, u32::MAX as u64) {
        Some(n) => Some(n as u32),
        None => None,
    }
}

/// A PID file that holds a PID on a line of its own is read back as that PID.
pub proof fn law_pid_files_are_read_back(pid: u32)
    ensures
        pid_in(decimal(pid as nat).push('\n')) == Some(pid as nat),
{
    let digits = decimal(pid as nat);
    let line = digits.push('\n');
    lemma_decimal_digits(pid as nat);
    lemma_decimal_round_trip(pid as nat, u32::MAX as nat);
    assert(is_digit(digits[0]) && is_digit(digits.last()));
    assert(line[0] == digits[0]);
    assert(trim_start(line) == line);
    assert(line.drop_last() =~= digits);
    assert(trim_end(digits) == digits);
}

/// What a PID file and a probe of its process say of the daemon.
#[derive(Debug, Clone, Copy, PartialEq, Eq, Structural)]
pub enum DaemonState {
    /// The daemon runs with this PID.
    Running(u32),
    /// The recorded process is gone: the PID file is to be cleaned up.
    Stale,
    /// There is no PID file, or it records no PID.
    Unknown,
}

/// What is known of the daemon, given the PID in the PID file and whether that
/// process is alive.
pub fn running_pid(recorded: Option<u32>, alive: bool) -> (r: DaemonState)
    ensures
        r == match recorded {
            Some(pid) => if alive {
                DaemonState::Running(pid)
            } else {
                DaemonState::Stale
            },
            None => DaemonState::Unknown,
        },
{
    match recorded {
        Some(pid) => {
            if alive {
                DaemonState::Running(pid)
            } else {
                DaemonState::Stale
            }
        },
        None => DaemonState::Unknown,
    }
}

/// How often a daemon that was told to stop is probed before giving up.
pub const STOP_PROBES: u32 = 150;

/// Milliseconds between probes.
pub const STOP_INTERVAL_MS: u64 = 100;

/// The pause between probes of a daemon that was told to stop.
pub fn stop_interval() -> (r: TimeSpan)
    ensures
        r.millis() == STOP_INTERVAL_MS,
        r.nanos % 1_000_000 == 0,
        r.wf(),
{
    TimeSpan::from_millis(STOP_INTERVAL_MS)
}

/// What to do while waiting for a daemon to exit.
#[derive(Debug, Clone, Copy, PartialEq, Eq, Structural)]
pub enum StopWait {
    /// It has exited.
    Stopped,
    /// Pause, then probe it again.
    Probe,
    /// Pause, then give up.
    GiveUp,
}

/// What to do after a probe of a daemon that was told to stop.
pub open spec fn stop_step(probe: int, alive: bool) -> StopWait {
    if !alive {
        StopWait::Stopped
    } else if probe + 1 < STOP_PROBES {
        StopWait::Probe
    } else {
        StopWait::GiveUp
    }
}

/// What to do after the probe number `probe`, counted from 0, of a daemon that
/// was told to stop.
pub fn stop(probe: u32, alive: bool) -> (r: StopWait)
    ensures
        r == stop_step(probe as int, alive),
{
    if !alive {
        return StopWait::Stopped;
    }
    if probe < STOP_PROBES - 1 {
        StopWait::Probe
    } else {
        StopWait::GiveUp
    }
}

/// The wait for a daemon to exit, from the probe number `probe` on, over what
/// each probe finds: how many pauses are made, and whether it was seen to exit.
pub open spec fn stop_run(alive: Seq<bool>, probe: int) -> (int, bool)
    decreases STOP_PROBES - probe,
{
    match stop_step(probe, alive[probe]) {
        StopWait::Stopped => (0, true),
        StopWait::Probe => {
            let rest = stop_run(alive, probe + 1);
            (rest.0 + 1, rest.1)
        },
        StopWait::GiveUp => (1, false),
    }
}

/// A daemon that exits within the probes is seen to stop, and one that does not
/// is waited for fifteen seconds.
pub proof fn law_stop_waits_fifteen_seconds(alive: Seq<bool>)
    requires
        alive.len() == STOP_PROBES,
    ensures
        stop_run(alive, 0).1 == alive.contains(false),
        !alive.contains(false) ==> stop_run(alive, 0).0 * STOP_INTERVAL_MS == 15_000,
{
    lemma_stop_run(alive, 0);
    if alive.contains(false) {
        let i = choose|i: int| 0 <= i < alive.len() && alive[i] == false;
        assert(!alive[i]);
    }
}

proof fn lemma_stop_run(alive: Seq<bool>, probe: int)
    requires
        alive.len() == STOP_PROBES,
        0 <= probe < STOP_PROBES,
    ensures
        stop_run(alive, probe).1 == exists|i: int| probe <= i < alive.len() && !(#[trigger] alive[i]),
        !stop_run(alive, probe).1 ==> stop_run(alive, probe).0 == STOP_PROBES - probe,
    decreases STOP_PROBES - probe,
{
    if alive[probe] && probe + 1 < STOP_PROBES {
        lemma_stop_run(alive, probe + 1);
    }
}

// ---------------------------------------------------------------------------
// Mounts
// ---------------------------------------------------------------------------

/// A mount point as `/proc/self/mountinfo` writes it, with its escapes for
/// space, tab, newline and backslash decoded.
pub open spec fn mountinfo_path(s: Seq<char>) -> Seq<char> {
    let spaced = replace_all(s, "\\040"@, seq![' ']);
    let tabbed = replace_all(spaced, "\\011"@, seq!['\t']);
    let broken = replace_all(tabbed, "\\012"@, seq!['\n']);
    replace_all(broken, "\\134"@, seq!['\\'])
}

/// mountinfo octal-escapes space/tab/newline/backslash in paths.
pub fn unescape_mountinfo(s: &str) -> (r: String)
    ensures
        r@ == mountinfo_path(s@),
{
    proof {
        reveal_strlit("\\040");
        reveal_strlit("\\011");
        reveal_strlit("\\012");
        reveal_strlit("\\134");
    }
    let chars = chars_of(s);
    let spaced = replace_chars(&chars, "\\040", ' ');
    let tabbed = replace_chars(&spaced, "\\011", '\t');
    let broken = replace_chars(&tabbed, "\\012", '\n');
    text_of(&replace_chars(&broken, "\\134", '\\'))
}

/// The mount point in a line of mountinfo, if it is a `file-guard` FUSE mount:
/// `<fields…> <mountpoint at idx 4> … - <fstype> <source> <superopts>`.
pub open spec fn mountinfo_target(line: Seq<char>) -> Option<Seq<u8>> {
    match find(line, " - "@) {
        Some(i) => {
            let left = split_on(line.take(i), ' ');
            let right = split_on(line.skip(i + 3), ' ');
            if left.len() > 4 && right.len() > 1 && starts_with(right[0], "fuse"@) && right[1]
                == "file-guard"@ {
                Some(encode_utf8(mountinfo_path(left[4])))
            } else {
                None
            }
        },
        None => None,
    }
}

fn target_of(line: &[char]) -> (r: Option<FilePath>)
    ensures
        opt_path(r) == mountinfo_target(line@),
{
    proof {
        reveal_strlit(" - ");
    }
    let len: usize = line.len();
    let dash = chars_of(" - ");
    let i: usize = match find_chars(line, &dash) {
        Some(i) => i,
        None => return None,
    };
    let left_part = copy_range(line, 0, i);
    let right_part = copy_range(line, i + 3, len);
    assert(left_part@ =~= line@.take(i as int));
    assert(right_part@ =~= line@.skip(i + 3));
    let left = split_chars(&left_part, ' ');
    let right = split_chars(&right_part, ' ');
    if left.len() <= 4 || right.len() <= 1 {
        assert(texts(left@).len() <= 4 || texts(right@).len() <= 1);
        return None;
    }
    assert(texts(left@)[4] == left@[4]@);
    assert(texts(right@)[0] == right@[0]@);
    assert(texts(right@)[1] == right@[1]@);
    if has_prefix(&right[0], "fuse") && is_text(&right[1], mount_source()) {
        let path = unescape_mountinfo(text_of(&left[4]).as_str());
        Some(FilePath::from_text(path.as_str()))
    } else {
        None
    }
}

/// A mountinfo line yields a path iff it is a `file-guard` FUSE mount.
pub fn parse_mountinfo_line(line: &str) -> (r: Option<FilePath>)
    ensures
        opt_path(r) == mountinfo_target(line@),
{
    target_of(&chars_of(line))
}

/// The mount points of `file-guard` FUSE mounts in a list of lines, in order.
pub open spec fn mountinfo_targets(list: Seq<Seq<char>>) -> Seq<Seq<u8>>
    decreases list.len(),
{
    if list.len() == 0 {
        Seq::empty()
    } else {
        match mountinfo_target(list[0]) {
            Some(target) => seq![target] + mountinfo_targets(list.skip(1)),
            None => mountinfo_targets(list.skip(1)),
        }
    }
}

/// Mount points currently served by a file-guard FUSE mount, from the contents
/// of `/proc/self/mountinfo`.
pub fn fuse_mounts(contents: &str) -> (r: Vec<FilePath>)
    ensures
        path_list(r@) == mountinfo_targets(lines(contents@)),
{
    let chars = chars_of(contents);
    let all = split_lines(&chars);
    let mut r: Vec<FilePath> = Vec::new();
    let mut i: usize = 0;
    let ghost list = texts(all@);
    assert(list.skip(0) =~= list);
    assert(path_list(r@) =~= Seq::<Seq<u8>>::empty());
    assert(mountinfo_targets(list) =~= path_list(r@) + mountinfo_targets(list.skip(0)));
    while i < all.len()
        invariant
            i <= all@.len(),
            list == texts(all@),
            mountinfo_targets(list) == path_list(r@) + mountinfo_targets(list.skip(i as int)),
        decreases all@.len() - i,
    {
        let ghost before = r@;
        let ghost rest = list.skip(i as int);
        assert(rest[0] == all@[i as int]@);
        assert(rest.skip(1) =~= list.skip(i + 1));
        if let Some(target) = target_of(&all[i]) {
            let ghost t = target@;
            r.push(target);
            proof {
                assert(path_list(r@) =~= path_list(before).push(t));
                let tail = mountinfo_targets(list.skip(i + 1));
                assert(path_list(before) + (seq![t] + tail) =~= path_list(r@) + tail);
            }
        }
        i = i + 1;
    }
    assert(list.skip(i as int) =~= Seq::<Seq<char>>::empty());
    assert(path_list(r@) + Seq::<Seq<u8>>::empty() =~= path_list(r@));
    r
}

/// The characters that the kernel escapes in a mount point, by how many of them
/// are left to decode: backslash first, then newline, tab and space.
pub open spec fn is_escaped(c: char, kinds: int) -> bool {
    ||| kinds >= 1 && c == '\\'
    ||| kinds >= 2 && c == '\n'
    ||| kinds >= 3 && c == '\t'
    ||| kinds >= 4 && c == ' '
}

/// The escape of a character.
pub open spec fn escape_code(c: char) -> Seq<char> {
    if c == '\\' {
        seq!['\\', '1', '3', '4']
    } else if c == '\n' {
        seq!['\\', '0', '1', '2']
    } else if c == '\t' {
        seq!['\\', '0', '1', '1']
    } else {
        seq!['\\', '0', '4', '0']
    }
}

/// `path` with the first `kinds` kinds of characters escaped; with all four, as
/// the kernel writes it into mountinfo.
pub open spec fn mountinfo_escaped(path: Seq<char>, kinds: int) -> Seq<char>
    decreases path.len(),
{
    if path.len() == 0 {
        path
    } else if is_escaped(path[0], kinds) {
        escape_code(path[0]) + mountinfo_escaped(path.skip(1), kinds)
    } else {
        seq![path[0]] + mountinfo_escaped(path.skip(1), kinds)
    }
}

proof fn lemma_not_at_start(s: Seq<char>, pat: Seq<char>)
    requires
        pat.len() > 0,
        s.len() > 0,
        s[0] != pat[0],
    ensures
        !occurs_at(s, pat, 0),
{
    if occurs_at(s, pat, 0) {
        assert(s.subrange(0, pat.len() as int)[0] == pat[0]);
    }
}

/// Replacing the escapes of one more kind leaves the other kinds escaped.
proof fn lemma_one_kind_decoded(path: Seq<char>, kinds: int, c: char)
    requires
        1 <= kinds <= 4,
        is_escaped(c, kinds),
        !is_escaped(c, kinds - 1),
    ensures
        replace_all(mountinfo_escaped(path, kinds), escape_code(c), seq![c]) == mountinfo_escaped(
            path,
            kinds - 1,
        ),
    decreases path.len(),
{
    let code = escape_code(c);
    if path.len() > 0 {
        let x = path[0];
        let rest = mountinfo_escaped(path.skip(1), kinds);
        let tail = replace_all(rest, code, seq![c]);
        let s = mountinfo_escaped(path, kinds);
        lemma_one_kind_decoded(path.skip(1), kinds, c);
        if x == c {
            assert(s == code + rest);
            assert(s.subrange(0, 4) =~= code);
            assert(occurs_at(s, code, 0));
            assert(s.skip(4) =~= rest);
        } else if is_escaped(x, kinds) {
            let other = escape_code(x);
            assert(s == other + rest);
            assert(code[0] == '\\');
            if occurs_at(s, code, 0) {
                assert(s.subrange(0, 4)[1] == other[1]);
                assert(s.subrange(0, 4)[2] == other[2]);
                assert(s.subrange(0, 4)[3] == other[3]);
            }
            let s1 = s.skip(1);
            let s2 = s1.skip(1);
            let s3 = s2.skip(1);
            assert(s1[0] == other[1]);
            assert(s2[0] == other[2]);
            assert(s3[0] == other[3]);
            lemma_not_at_start(s1, code);
            lemma_not_at_start(s2, code);
            lemma_not_at_start(s3, code);
            assert(s3.skip(1) =~= rest);
            assert(replace_all(s3, code, seq![c]) == seq![other[3]] + tail);
            assert(replace_all(s2, code, seq![c]) == seq![other[2]] + replace_all(s3, code, seq![c]));
            assert(replace_all(s1, code, seq![c]) == seq![other[1]] + replace_all(s2, code, seq![c]));
            assert(replace_all(s, code, seq![c]) == seq![other[0]] + replace_all(s1, code, seq![c]));
            assert(replace_all(s, code, seq![c]) =~= other + tail);
        } else {
            assert(s == seq![x] + rest);
            assert(s[0] == x);
            assert(x != '\\');
            lemma_not_at_start(s, code);
            assert(s.skip(1) =~= rest);
        }
    }
}

proof fn lemma_nothing_escaped(path: Seq<char>)
    ensures
        mountinfo_escaped(path, 0) == path,
    decreases path.len(),
{
    if path.len() > 0 {
        lemma_nothing_escaped(path.skip(1));
        assert(seq![path[0]] + path.skip(1) =~= path);
    }
}

/// Decoding a mount point gives back the path that the kernel wrote, whatever
/// characters the path consists of.
pub proof fn law_mountinfo_decodes_to_the_path(path: Seq<char>)
    ensures
        mountinfo_path(mountinfo_escaped(path, 4)) == path,
{
    reveal_strlit("\\040");
    reveal_strlit("\\011");
    reveal_strlit("\\012");
    reveal_strlit("\\134");
    assert("\\040"@ =~= escape_code(' '));
    assert("\\011"@ =~= escape_code('\t'));
    assert("\\012"@ =~= escape_code('\n'));
    assert("\\134"@ =~= escape_code('\\'));
    lemma_one_kind_decoded(path, 4, ' ');
    lemma_one_kind_decoded(path, 3, '\t');
    lemma_one_kind_decoded(path, 2, '\n');
    lemma_one_kind_decoded(path, 1, '\\');
    lemma_nothing_escaped(path);
}

/// A mount of a guarded file is recognized in mountinfo whatever its path: the
/// fifth field is the path as the kernel writes it, and the first separator
/// stands before the file system's type.
pub proof fn law_own_mounts_are_recognized(left: Seq<char>, rest: Seq<char>, path: Seq<char>)
    requires
        split_on(left, ' ').len() > 4,
        split_on(left, ' ')[4] == mountinfo_escaped(path, 4),
        forall|j: int|
            0 <= j < left.len() ==> !occurs_at(
                left + " - fuse file-guard "@ + rest,
                " - "@,
                j,
            ),
    ensures
        mountinfo_target(left + " - fuse file-guard "@ + rest) == Some(encode_utf8(path)),
{
    let line = left + " - fuse file-guard "@ + rest;
    let i = left.len() as int;
    reveal_strlit(" - fuse file-guard ");
    reveal_strlit(" - ");
    reveal_strlit("fuse");
    reveal_strlit("file-guard");
    assert(line.subrange(i, i + 3) =~= " - "@);
    assert(occurs_at(line, " - "@, i));
    assert(is_first_occurrence(line, " - "@, i));
    let k = choose|k: int| is_first_occurrence(line, " - "@, k);
    assert(k == i);
    assert(line.take(i) =~= left);
    let right = "fuse"@ + seq![' '] + ("file-guard"@ + seq![' '] + rest);
    assert(line.skip(i + 3) =~= right);
    lemma_split_first("fuse"@, ' ', "file-guard"@ + seq![' '] + rest);
    lemma_split_first("file-guard"@, ' ', rest);
    law_mountinfo_decodes_to_the_path(path);
}

// ---------------------------------------------------------------------------
// Reports
// ---------------------------------------------------------------------------

/// The line about the daemon's process.
pub open spec fn daemon_line(pid: Option<u32>) -> Seq<char> {
    match pid {
        Some(p) => "daemon:  running (pid "@ + decimal(p as nat) + ")"@,
        None => "daemon:  not running"@,
    }
}

/// The line about a watched file.
pub open spec fn watch_line(path: Seq<u8>, mounts: Seq<Seq<u8>>) -> Seq<char> {
    let state = if lists_path(mounts, path) {
        "mounted"@
    } else {
        "not mounted"@
    };
    "  ["@ + pad_left(state, 11) + "]  "@ + text_of_bytes(path)
}

/// The lines about the watched files.
pub open spec fn watch_lines(paths: Seq<Seq<u8>>, mounts: Seq<Seq<u8>>) -> Seq<Seq<char>> {
    if paths.len() == 0 {
        seq!["  (none configured)"@]
    } else {
        paths.map_values(|path: Seq<u8>| watch_line(path, mounts))
    }
}

/// The lines about recent accesses, given where the audit log goes and what is
/// in it.
pub open spec fn recent_lines(dest: Seq<char>, entries: Seq<EntryView>) -> Seq<Seq<char>> {
    if is_journal(dest) {
        seq!["  (audit log goes to the journal; set log_destination to a file path)"@]
    } else if entries.len() == 0 {
        seq!["  (no entries)"@]
    } else {
        entries.map_values(|e: EntryView| "  "@ + entry_text(e))
    }
}

/// The status report, line by line.
pub open spec fn status_lines(
    pid: Option<u32>,
    paths: Seq<Seq<u8>>,
    mounts: Seq<Seq<u8>>,
    dest: Seq<char>,
    entries: Seq<EntryView>,
) -> Seq<Seq<char>> {
    seq![daemon_line(pid), ""@, "watched files:"@] + watch_lines(paths, mounts) + seq![
        ""@,
        "recent access (audit log: "@ + dest + "):"@,
    ] + recent_lines(dest, entries)
}

fn watch_report(paths: &Vec<FilePath>, mounts: &Vec<FilePath>) -> (r: Vec<String>)
    ensures
        strings(r@) == watch_lines(path_list(paths@), path_list(mounts@)),
{
    let mut r: Vec<String> = Vec::new();
    let ghost all = path_list(paths@).map_values(
        |path: Seq<u8>| watch_line(path, path_list(mounts@)),
    );
    if paths.len() == 0 {
        r.push("  (none configured)".to_string());
        assert(strings(r@) =~= seq!["  (none configured)"@]);
        return r;
    }
    let mut i: usize = 0;
    assert(strings(r@) =~= all.take(0));
    while i < paths.len()
        invariant
            i <= paths@.len(),
            all == path_list(paths@).map_values(
                |path: Seq<u8>| watch_line(path, path_list(mounts@)),
            ),
            strings(r@) == all.take(i as int),
        decreases paths@.len() - i,
    {
        let state = if contains_path(mounts, &paths[i]) {
            "mounted"
        } else {
            "not mounted"
        };
        let line = "  [".to_string().concat(padded_left(state, 11).as_str()).concat("]  ").concat(
            paths[i].to_text().as_str(),
        );
        let ghost before = r@;
        let ghost t = line@;
        r.push(line);
        assert(strings(r@) =~= strings(before).push(t));
        i = i + 1;
        assert(strings(r@) =~= all.take(i as int));
    }
    assert(all.take(i as int) =~= all);
    r
}

fn recent_report(dest: &str, entries: &Vec<AccessLogEntry>) -> (r: Vec<String>)
    ensures
        strings(r@) == recent_lines(dest@, log_views(entries@)),
{
    let mut r: Vec<String> = Vec::new();
    if goes_to_journal(dest) {
        r.push(
            "  (audit log goes to the journal; set log_destination to a file path)".to_string(),
        );
        assert(strings(r@) =~= recent_lines(dest@, log_views(entries@)));
        return r;
    }
    if entries.len() == 0 {
        r.push("  (no entries)".to_string());
        assert(strings(r@) =~= recent_lines(dest@, log_views(entries@)));
        return r;
    }
    let ghost all = log_views(entries@).map_values(|e: EntryView| "  "@ + entry_text(e));
    let mut i: usize = 0;
    assert(strings(r@) =~= all.take(0));
    while i < entries.len()
        invariant
            i <= entries@.len(),
            all == log_views(entries@).map_values(|e: EntryView| "  "@ + entry_text(e)),
            strings(r@) == all.take(i as int),
        decreases entries@.len() - i,
    {
        let line = "  ".to_string().concat(entries[i].to_text().as_str());
        let ghost before = r@;
        let ghost t = line@;
        r.push(line);
        assert(strings(r@) =~= strings(before).push(t));
        i = i + 1;
        assert(strings(r@) =~= all.take(i as int));
    }
    assert(all.take(i as int) =~= all);
    r
}

/// Whether a log destination, without white space around it, means that there
/// is no audit-log file.
fn goes_to_journal(dest: &str) -> (r: bool)
    ensures
        r == is_journal(dest@),
{
    let chars = chars_of(dest);
    is_text(&chars, "") || is_text(&chars, "stdout") || is_text(&chars, "journal")
}

/// How many recent accesses the status report shows.
pub const STATUS_ENTRIES: usize = 10;

/// Daemon state, each watched file's mount status, and recent accesses, line by
/// line. `mounts` are the mount points of [`fuse_mounts`], and `entries` the
/// recent entries of the audit log, if it goes to a file.
pub fn status(
    config: &Config,
    home: &Option<FilePath>,
    pid: Option<u32>,
    mounts: &Vec<FilePath>,
    entries: &Vec<AccessLogEntry>,
) -> (r: Vec<String>)
    ensures
        strings(r@) == status_lines(
            pid,
            config.watch@.map_values(|w: WatchEntry| expanded(w.path@, opt_path(*home))),
            path_list(mounts@),
            trim(config.settings.log_destination@),
            log_views(entries@),
        ),
{
    let daemon = match pid {
        Some(p) => "daemon:  running (pid ".to_string().concat(
            decimal_string(p as u64).as_str(),
        ).concat(")"),
        None => "daemon:  not running".to_string(),
    };
    let ghost daemon_text = daemon@;
    let paths = config.watched_paths(home);
    let mut watched = watch_report(&paths, mounts);
    let dest = text_of(&trim_chars(&chars_of(config.settings.log_destination.as_str())));
    let mut recent = recent_report(dest.as_str(), entries);
    let header = "recent access (audit log: ".to_string().concat(dest.as_str()).concat("):");
    let ghost header_text = header@;
    let ghost w = strings(watched@);
    let ghost e = strings(recent@);
    let mut r: Vec<String> = Vec::new();
    r.push(daemon);
    r.push("".to_string());
    r.push("watched files:".to_string());
    assert(strings(r@) =~= seq![daemon_text, ""@, "watched files:"@]);
    let ghost first = r@;
    r.append(&mut watched);
    assert(strings(r@) =~= strings(first) + w);
    let ghost third = r@;
    r.push("".to_string());
    r.push(header);
    assert(strings(r@) =~= strings(third) + seq![""@, header_text]);
    let ghost fourth = r@;
    r.append(&mut recent);
    assert(strings(r@) =~= strings(fourth) + e);
    r
}

/// The audit log is not written to a file: it goes to the daemon's journal.
#[derive(Debug, Clone, Copy, PartialEq, Eq, Structural)]
pub struct NoLogFile;

/// The audit-log file to print.
pub fn tail_log(config: &Config, home: &Option<FilePath>) -> (r: Result<FilePath, NoLogFile>)
    ensures
        match r {
            Ok(path) => log_file(config.settings.log_destination@, opt_path(*home)) == Some(path@),
            Err(_) => log_file(config.settings.log_destination@, opt_path(*home)) is None,
        },
{
    match AccessLogger::new(config.settings.log_destination.as_str(), home).sink {
        Sink::File(path) => Ok(path),
        Sink::Stdout => Err(NoLogFile),
    }
}

/// The pause between polls of a followed log.
pub fn follow_interval() -> (r: TimeSpan)
    ensures
        r.secs == 0,
        r.nanos == 500_000_000,
{
    TimeSpan::from_millis(500)
}

/// How a poll of the followed log goes on.
#[derive(Debug, Clone, Copy, PartialEq, Eq, Structural)]
pub struct FollowStep {
    /// Print the entries from this offset on, if any.
    pub read_from: Option<u64>,
    /// How much of the file has been printed then.
    pub offset: u64,
}

/// How a poll goes on that finds the file `len` bytes long, if it is there.
pub open spec fn follow_step(offset: u64, len: Option<u64>) -> FollowStep {
    match len {
        None => FollowStep { read_from: None, offset },
        Some(n) => {
            let from = if n < offset {
                0
            } else {
                offset
            };
            if n > from {
                FollowStep { read_from: Some(from), offset: n }
            } else {
                FollowStep { read_from: None, offset: from }
            }
        },
    }
}

/// Follow the log: what to print after a poll, and the new offset. A file that
/// has become shorter was truncated or rotated, and is printed from the top.
pub fn follow_log(offset: u64, len: Option<u64>) -> (r: FollowStep)
    ensures
        r == follow_step(offset, len),
{
    match len {
        None => FollowStep { read_from: None, offset },
        Some(n) => {
            let from: u64 = if n < offset {
                0
            } else {
                offset
            };
            if n > from {
                FollowStep { read_from: Some(from), offset: n }
            } else {
                FollowStep { read_from: None, offset: from }
            }
        },
    }
}

/// The offset after a series of polls.
pub open spec fn followed(offset: u64, lens: Seq<Option<u64>>) -> u64
    decreases lens.len(),
{
    if lens.len() == 0 {
        offset
    } else {
        follow_step(followed(offset, lens.drop_last()), lens.last()).offset
    }
}

/// Each poll takes up exactly where the polls before it stopped, and leaves
/// nothing of the file out: after a poll that finds the file, all of its length
/// has been printed, from the previous offset on or, if the file has become
/// shorter, from the top.
pub proof fn law_following_leaves_nothing_out(offset: u64, lens: Seq<Option<u64>>, len: u64)
    ensures
        followed(offset, lens.push(Some(len))) == len,
        ({
            let before = followed(offset, lens);
            let step = follow_step(before, Some(len));
            &&& len > before ==> step.read_from == Some(before)
            &&& len == before ==> step.read_from is None
            &&& 0 < len < before ==> step.read_from == Some(0u64)
        }),
{
    assert(lens.push(Some(len)).drop_last() =~= lens);
}

// ---------------------------------------------------------------------------
// Laws
// ---------------------------------------------------------------------------

/// A PID file records the number that stands in it, whatever white space is
/// around it; where something else stands there, it records none.
pub proof fn law_pid_files_hold_one_number(before: Seq<char>, s: Seq<char>, after: Seq<char>)
    requires
        forall|i: int| 0 <= i < before.len() ==> is_white(#[trigger] before[i]),
        forall|i: int| 0 <= i < after.len() ==> is_white(#[trigger] after[i]),
        s.len() > 0 ==> !is_white(s[0]) && !is_white(s.last()),
    ensures
        pid_in(before + s + after) == parse_number(s, 4_294_967_295),
{
    law_trimming_takes_white_ends_off(before, s, after);
}

/// A daemon that was told to stop has stopped as soon as it is found gone.
/// Until then it is probed again, and given up after the last of 150 probes.
pub proof fn law_stopping_is_probed_to_the_end(probe: int, alive: bool)
    ensures
        stop_step(probe, alive) == StopWait::Stopped <==> !alive,
        stop_step(probe, true) == StopWait::Probe <==> probe < 149,
        stop_step(probe, true) == StopWait::GiveUp <==> probe >= 149,
{
}

/// The four escapes of mountinfo are decoded one kind after the other, the
/// backslash last, so that a decoded backslash begins no escape.
pub proof fn law_escapes_are_decoded_in_turn(s: Seq<char>)
    ensures
        mountinfo_path(s) == replace_all(
            replace_all(
                replace_all(
                    replace_all(s, seq!['\\', '0', '4', '0'], seq![' ']),
                    seq!['\\', '0', '1', '1'],
                    seq!['\t'],
                ),
                seq!['\\', '0', '1', '2'],
                seq!['\n'],
            ),
            seq!['\\', '1', '3', '4'],
            seq!['\\'],
        ),
{
    reveal_strlit("\\040");
    reveal_strlit("\\011");
    reveal_strlit("\\012");
    reveal_strlit("\\134");
    assert("\\040"@ =~= seq!['\\', '0', '4', '0']);
    assert("\\011"@ =~= seq!['\\', '0', '1', '1']);
    assert("\\012"@ =~= seq!['\\', '0', '1', '2']);
    assert("\\134"@ =~= seq!['\\', '1', '3', '4']);
}

/// A mount point without a backslash is written as it is.
pub proof fn law_plain_mount_points_are_kept(s: Seq<char>)
    requires
        !s.contains('\\'),
    ensures
        mountinfo_path(s) == s,
{
    law_escapes_are_decoded_in_turn(s);
    lemma_nothing_to_replace(s, seq!['\\', '0', '4', '0'], seq![' ']);
    lemma_nothing_to_replace(s, seq!['\\', '0', '1', '1'], seq!['\t']);
    lemma_nothing_to_replace(s, seq!['\\', '0', '1', '2'], seq!['\n']);
    lemma_nothing_to_replace(s, seq!['\\', '1', '3', '4'], seq!['\\']);
}

proof fn lemma_nothing_to_replace(s: Seq<char>, pat: Seq<char>, by: Seq<char>)
    requires
        pat.len() > 0,
        !s.contains(pat[0]),
    ensures
        replace_all(s, pat, by) == s,
    decreases s.len(),
{
    if s.len() > 0 {
        let rest = s.skip(1);
        assert(s.contains(s[0]));
        lemma_not_at_start(s, pat);
        assert(!rest.contains(pat[0])) by {
            if rest.contains(pat[0]) {
                let i = choose|i: int| 0 <= i < rest.len() && rest[i] == pat[0];
                assert(s[i + 1] == pat[0]);
            }
        }
        lemma_nothing_to_replace(rest, pat, by);
        assert(seq![s[0]] + rest =~= s);
    }
}

/// A line of mountinfo is a mount of a guarded file if and only if the type behind
/// the first separator begins with `fuse` and the source is `file-guard`; its
/// mount point is then the fifth field of the line.
pub proof fn law_other_mounts_are_passed_over(left: Seq<char>, right: Seq<char>, line: Seq<char>)
    requires
        forall|j: int| 0 <= j < left.len() ==> !occurs_at(left + " - "@ + right, " - "@, j),
        forall|j: int| !occurs_at(line, " - "@, j),
    ensures
        ({
            let before = split_on(left, ' ');
            let behind = split_on(right, ' ');
            let own = before.len() >= 5 && behind.len() >= 2 && "fuse"@.is_prefix_of(behind[0])
                && behind[1] == "file-guard"@;
            &&& own ==> mountinfo_target(left + " - "@ + right) == Some(
                encode_utf8(mountinfo_path(before[4])),
            )
            &&& !own ==> mountinfo_target(left + " - "@ + right) is None
        }),
        mountinfo_target(line) is None,
{
    let whole = left + " - "@ + right;
    let i = left.len() as int;
    reveal_strlit(" - ");
    assert(whole.subrange(i, i + 3) =~= " - "@);
    assert(occurs_at(whole, " - "@, i));
    assert(is_first_occurrence(whole, " - "@, i));
    let k = choose|k: int| is_first_occurrence(whole, " - "@, k);
    assert(k == i);
    assert(whole.take(i) =~= left);
    assert(whole.skip(i + 3) =~= right);
    if exists|k: int| is_first_occurrence(line, " - "@, k) {
        let k = choose|k: int| is_first_occurrence(line, " - "@, k);
        assert(occurs_at(line, " - "@, k));
    }
}

/// Every mount of a guarded file is listed, in the order of the lines, and no
/// other line is.
pub proof fn law_own_mounts_are_listed_in_order(line: Seq<char>, rest: Seq<Seq<char>>)
    ensures
        mountinfo_targets(Seq::empty()) == Seq::<Seq<u8>>::empty(),
        mountinfo_target(line) matches Some(target) ==> mountinfo_targets(seq![line] + rest)
            == seq![target] + mountinfo_targets(rest),
        mountinfo_target(line) is None ==> mountinfo_targets(seq![line] + rest)
            == mountinfo_targets(rest),
{
    let list = seq![line] + rest;
    assert(list[0] == line);
    assert(list.skip(1) =~= rest);
}

/// The report shows a watched file as mounted if and only if it is, and names it
/// in full.
pub proof fn law_the_report_tells_what_is_mounted(path: Seq<u8>, mounts: Seq<Seq<u8>>)
    ensures
        lists_path(mounts, path) ==> watch_line(path, mounts) == "  [    mounted]  "@
            + text_of_bytes(path),
        !lists_path(mounts, path) ==> watch_line(path, mounts) == "  [not mounted]  "@
            + text_of_bytes(path),
{
    reveal_strlit("  [");
    reveal_strlit("]  ");
    reveal_strlit("mounted");
    reveal_strlit("not mounted");
    reveal_strlit("  [    mounted]  ");
    reveal_strlit("  [not mounted]  ");
    if lists_path(mounts, path) {
        assert("  [    mounted]  "@ =~= "  ["@ + pad_left("mounted"@, 11) + "]  "@);
        assert(watch_line(path, mounts) =~= "  [    mounted]  "@ + text_of_bytes(path));
    } else {
        assert("  [not mounted]  "@ =~= "  ["@ + pad_left("not mounted"@, 11) + "]  "@);
        assert(watch_line(path, mounts) =~= "  [not mounted]  "@ + text_of_bytes(path));
    }
}

/// The report has a line for each watched file, in order, and one that says so
/// where there is none.
pub proof fn law_the_report_covers_every_file(paths: Seq<Seq<u8>>, mounts: Seq<Seq<u8>>, i: int)
    ensures
        paths.len() == 0 ==> watch_lines(paths, mounts) == seq!["  (none configured)"@],
        paths.len() > 0 ==> watch_lines(paths, mounts).len() == paths.len(),
        0 <= i < paths.len() ==> watch_lines(paths, mounts)[i] == watch_line(paths[i], mounts),
{
}

/// The report has a line for each recent access, in order, and otherwise says why
/// there is none.
pub proof fn law_the_report_covers_every_access(dest: Seq<char>, entries: Seq<EntryView>, i: int)
    ensures
        dest == "stdout"@ || dest == "journal"@ || dest.len() == 0 ==> recent_lines(dest, entries)
            == seq!["  (audit log goes to the journal; set log_destination to a file path)"@],
        dest != "stdout"@ && dest != "journal"@ && dest.len() > 0 ==> {
            &&& entries.len() == 0 ==> recent_lines(dest, entries) == seq!["  (no entries)"@]
            &&& entries.len() > 0 ==> recent_lines(dest, entries).len() == entries.len()
            &&& 0 <= i < entries.len() ==> recent_lines(dest, entries)[i] == "  "@ + entry_text(
                entries[i],
            )
        },
{
    reveal_strlit("");
    assert(dest.len() == 0 ==> dest =~= ""@);
}

/// The report is about the daemon first, then about the watched files, then about
/// recent accesses, each under its heading.
pub proof fn law_the_report_has_three_parts(
    pid: Option<u32>,
    paths: Seq<Seq<u8>>,
    mounts: Seq<Seq<u8>>,
    dest: Seq<char>,
    entries: Seq<EntryView>,
)
    ensures
        ({
            let report = status_lines(pid, paths, mounts, dest, entries);
            let files = watch_lines(paths, mounts);
            let accesses = recent_lines(dest, entries);
            let n = files.len() as int;
            &&& report.len() == 5 + files.len() + accesses.len()
            &&& pid matches Some(p) ==> report[0] == "daemon:  running (pid "@ + decimal(p as nat)
                + ")"@
            &&& pid is None ==> report[0] == "daemon:  not running"@
            &&& report[1] == ""@
            &&& report[2] == "watched files:"@
            &&& report.subrange(3, 3 + n) == files
            &&& report[3 + n] == ""@
            &&& report[4 + n] == "recent access (audit log: "@ + dest + "):"@
            &&& report.skip(5 + n) == accesses
        }),
{
    let report = status_lines(pid, paths, mounts, dest, entries);
    let files = watch_lines(paths, mounts);
    assert(report.subrange(3, 3 + files.len() as int) =~= files);
    assert(report.skip(5 + files.len() as int) =~= recent_lines(dest, entries));
}

/// A poll prints what the file has gained since the last one, from the top where
/// the file has become shorter, and nothing where there is nothing new or the
/// file is not there.
pub proof fn law_polls_print_what_is_new(offset: u64, len: u64)
    ensures
        follow_step(offset, None) == (FollowStep { read_from: None, offset }),
        follow_step(offset, Some(len)).offset == len,
        len > offset ==> follow_step(offset, Some(len)).read_from == Some(offset),
        len == offset || len == 0 ==> follow_step(offset, Some(len)).read_from is None,
        0 < len < offset ==> follow_step(offset, Some(len)).read_from == Some(0u64),
{
}

} // verus!
