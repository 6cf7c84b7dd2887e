//! The audit trail of accesses.
use crate::config::{expanded, Config};
use crate::path::{opt_path, text_of_bytes, FilePath};
use crate::policy::rule::{Access, Decision};
use crate::process::identify::{Caller, ProcessInfo};
use crate::text::{
    chars_of, copy_opt, decimal, decimal_string, is_text, lines, opt_text, pad_right, padded_right,
    split_lines, strings, text_of, texts, trim, trim_chars,
};
use vstd::prelude::*;
use vstd::string::*;

verus! {

/// A single access-log entry. One JSON object per line (NDJSON) of the audit-log
/// file, forming a queryable audit trail.
#[derive(Debug)]
pub struct AccessLogEntry {
    pub timestamp: String,
    pub decision: String,
    pub access: String,
    pub file: String,
    pub binary: String,
    pub pid: u32,
    pub detail: Option<String>,
}

/// The contents of an [`AccessLogEntry`].
pub ghost struct EntryView {
    pub timestamp: Seq<char>,
    pub decision: Seq<char>,
    pub access: Seq<char>,
    pub file: Seq<char>,
    pub binary: Seq<char>,
    pub pid: u32,
    pub detail: Option<Seq<char>>,
}

impl View for AccessLogEntry {
    type V = EntryView;

    open spec fn view(&self) -> EntryView {
        EntryView {
            timestamp: self.timestamp@,
            decision: self.decision@,
            access: self.access@,
            file: self.file@,
            binary: self.binary@,
            pid: self.pid,
            detail: opt_text(self.detail),
        }
    }
}

/// The contents of a list of entries.
pub open spec fn log_views(entries: Seq<AccessLogEntry>) -> Seq<EntryView> {
    entries.map_values(|e: AccessLogEntry| e@)
}

/// A detail as it is shown behind an entry.
pub open spec fn bracketed(detail: Option<Seq<char>>) -> Seq<char> {
    match detail {
        Some(d) => " ["@ + d + "]"@,
        None => Seq::empty(),
    }
}

/// Who accessed what: the file, the binary and its pid, and a detail.
pub open spec fn access_text(
    file: Seq<char>,
    binary: Seq<char>,
    pid: u32,
    detail: Option<Seq<char>>,
) -> Seq<char> {
    file + " ← "@ + binary + " (pid "@ + decimal(pid as nat) + ")"@ + bracketed(detail)
}

/// An entry as it is shown: the decision and the direction each in a field of
/// five characters.
pub open spec fn entry_text(e: EntryView) -> Seq<char> {
    e.timestamp + "  "@ + pad_right(e.decision, 5) + " "@ + pad_right(e.access, 5) + " "@
        + access_text(e.file, e.binary, e.pid, e.detail)
}

fn bracket(detail: &Option<String>) -> (s: String)
    ensures
        s@ == bracketed(opt_text(*detail)),
{
    match detail {
        Some(d) => " [".to_string().concat(d.as_str()).concat("]"),
        None => String::new(),
    }
}

fn access_string(file: &str, binary: &str, pid: u32, detail: &Option<String>) -> (s: String)
    ensures
        s@ == access_text(file@, binary@, pid, opt_text(*detail)),
{
    file.to_string().concat(" ← ").concat(binary).concat(" (pid ").concat(
        decimal_string(pid as u64).as_str(),
    ).concat(")").concat(bracket(detail).as_str())
}

impl AccessLogEntry {
    /// The entry as it is shown to the user.
    pub fn to_text(&self) -> (s: String)
        ensures
            s@ == entry_text(self@),
    {
        let access = access_string(
            self.file.as_str(),
            self.binary.as_str(),
            self.pid,
            &self.detail,
        );
        self.timestamp.clone().concat("  ").concat(
            padded_right(self.decision.as_str(), 5).as_str(),
        ).concat(" ").concat(padded_right(self.access.as_str(), 5).as_str()).concat(" ").concat(
            access.as_str(),
        )
    }
}

/// Where access entries are written, in addition to the daemon's own log.
#[derive(Debug)]
pub enum Sink {
    /// The daemon's own log only (captured by the journal under systemd).
    Stdout,
    /// Appended as NDJSON to this file.
    File(FilePath),
}

/// Whether a destination, without white space around it, means the daemon's own
/// log only.
pub open spec fn is_journal(dest: Seq<char>) -> bool {
    dest == ""@ || dest == "stdout"@ || dest == "journal"@
}

/// The audit-log file that a destination names; `~` is expanded.
pub open spec fn log_file(destination: Seq<char>, home: Option<Seq<u8>>) -> Option<Seq<u8>> {
    if is_journal(trim(destination)) {
        None
    } else {
        Some(expanded(trim(destination), home))
    }
}

/// Access logger — emits each decision to the daemon's own log and, when
/// configured, to a structured audit-log file.
#[derive(Debug)]
pub struct AccessLogger {
    pub sink: Sink,
}

impl View for AccessLogger {
    type V = Option<Seq<u8>>;

    /// The audit-log file, if there is one.
    open spec fn view(&self) -> Option<Seq<u8>> {
        match self.sink {
            Sink::Stdout => None,
            Sink::File(path) => Some(path@),
        }
    }
}

/// What an access attempt is logged as.
#[derive(Debug)]
pub struct LogRecord {
    /// The line for the daemon's own log.
    pub message: String,
    /// The entry for the audit-log file, if there is one.
    pub entry: Option<AccessLogEntry>,
}

/// How a decision is logged.
pub open spec fn decision_word(decision: Decision) -> Seq<char> {
    if decision.allows() {
        "ALLOW"@
    } else {
        "DENY"@
    }
}

/// How a direction is logged.
pub open spec fn access_word(access: Access) -> Seq<char> {
    match access {
        Access::Read => "READ"@,
        Access::Write => "WRITE"@,
        Access::Any => "ACCESS"@,
    }
}

/// The entry for an access attempt.
pub open spec fn access_entry(
    caller: Caller,
    file: Seq<u8>,
    access: Access,
    decision: Decision,
    detail: Option<Seq<char>>,
    timestamp: Seq<char>,
) -> EntryView {
    EntryView {
        timestamp,
        decision: decision_word(decision),
        access: access_word(access),
        file: text_of_bytes(file),
        binary: text_of_bytes(caller.binary),
        pid: caller.pid,
        detail,
    }
}

impl AccessLogger {
    /// `destination`: `"stdout"` (the daemon's own log only) or a filesystem path
    /// (NDJSON audit file; `~` is expanded).
    pub fn new(destination: &str, home: &Option<FilePath>) -> (r: AccessLogger)
        ensures
            r@ == log_file(destination@, opt_path(*home)),
    {
        let dest = trim_chars(&chars_of(destination));
        if is_text(&dest, "") || is_text(&dest, "stdout") || is_text(&dest, "journal") {
            AccessLogger { sink: Sink::Stdout }
        } else {
            let path = Config::expand_path(text_of(&dest).as_str(), home);
            AccessLogger { sink: Sink::File(path) }
        }
    }

    /// Log an access attempt that was decided at `timestamp`.
    pub fn log(
        &self,
        process: &ProcessInfo,
        file: &FilePath,
        access: Access,
        decision: &Decision,
        detail: &Option<String>,
        timestamp: &str,
    ) -> (r: LogRecord)
        ensures
            r.message@ == decision_word(*decision) + " "@ + access_word(access) + " "@
                + access_text(
                text_of_bytes(file@),
                text_of_bytes(process@.binary),
                process@.pid,
                opt_text(*detail),
            ),
            r.entry is Some == self@ is Some,
            r.entry matches Some(entry) ==> entry@ == access_entry(
                process@,
                file@,
                access,
                *decision,
                opt_text(*detail),
                timestamp@,
            ),
    {
        let decision_str = match decision {
            Decision::AllowAlways | Decision::AllowSession | Decision::AllowOnce => "ALLOW",
            Decision::DenyAlways | Decision::DenyOnce => "DENY",
        };
        let access_str = match access {
            Access::Read => "READ",
            Access::Write => "WRITE",
            Access::Any => "ACCESS",
        };
        let file_text = file.to_text();
        let binary_text = process.binary_path.to_text();
        let what = access_string(file_text.as_str(), binary_text.as_str(), process.pid, detail);
        let message = decision_str.to_string().concat(" ").concat(access_str).concat(" ").concat(
            what.as_str(),
        );
        let entry = match &self.sink {
            Sink::Stdout => None,
            Sink::File(_) => Some(
                AccessLogEntry {
                    timestamp: timestamp.to_string(),
                    decision: decision_str.to_string(),
                    access: access_str.to_string(),
                    file: file_text,
                    binary: binary_text,
                    pid: process.pid,
                    detail: copy_opt(detail),
                },
            ),
        };
        LogRecord { message, entry }
    }
}

/// The last `n` elements of a list, in order.
pub open spec fn last_of<T>(list: Seq<T>, n: int) -> Seq<T> {
    if n < list.len() {
        list.skip(list.len() - n)
    } else {
        list
    }
}

/// The lines of an audit log's `contents`, each of which may be an entry.
pub fn log_lines(contents: &str) -> (r: Vec<String>)
    ensures
        strings(r@) == lines(contents@),
{
    let chars = chars_of(contents);
    let all = split_lines(&chars);
    let ghost list = texts(all@);
    let mut r: Vec<String> = Vec::new();
    let mut i: usize = 0;
    assert(strings(r@) =~= list.take(0));
    while i < all.len()
        invariant
            i <= all@.len(),
            list == texts(all@),
            strings(r@) == list.take(i as int),
        decreases all@.len() - i,
    {
        let line = text_of(&all[i]);
        let ghost before = r@;
        let ghost t = line@;
        assert(list[i as int] == t);
        r.push(line);
        assert(strings(r@) =~= strings(before).push(t));
        i = i + 1;
        assert(strings(r@) =~= list.take(i as int));
    }
    assert(list.take(i as int) =~= list);
    r
}

/// The entries among lines that have been parsed, in order; a malformed line
/// is none.
pub open spec fn entries_in(parsed: Seq<Option<AccessLogEntry>>) -> Seq<EntryView>
    decreases parsed.len(),
{
    if parsed.len() == 0 {
        Seq::empty()
    } else {
        match parsed.last() {
            Some(entry) => entries_in(parsed.drop_last()).push(entry@),
            None => entries_in(parsed.drop_last()),
        }
    }
}

/// The entries among lines that have been parsed, oldest first. Malformed lines
/// are skipped.
pub fn well_formed(parsed: Vec<Option<AccessLogEntry>>) -> (r: Vec<AccessLogEntry>)
    ensures
        log_views(r@) == entries_in(parsed@),
{
    let mut r: Vec<AccessLogEntry> = Vec::new();
    let ghost all = parsed@;
    assert(log_views(r@) =~= entries_in(all.take(0)));
    for item in it: parsed
        invariant
            it.seq() == all,
            log_views(r@) == entries_in(all.take(it.index())),
            it.index() == it.seq().len() ==> log_views(r@) == entries_in(all),
    {
        proof {
            assert(all.take(it.index() + 1).drop_last() =~= all.take(it.index()));
            assert(all.take(all.len() as int) =~= all);
        }
        if let Some(entry) = item {
            let ghost before = r@;
            let ghost e = entry@;
            r.push(entry);
            assert(log_views(r@) =~= log_views(before).push(e));
        }
    }
    r
}

/// The last `n` entries among the lines of an audit log that have been parsed,
/// oldest first. Malformed lines are skipped, and do not count.
pub fn read_recent(parsed: Vec<Option<AccessLogEntry>>, n: usize) -> (r: Vec<AccessLogEntry>)
    ensures
        log_views(r@) == last_of(entries_in(parsed@), n as int),
{
    let mut all = well_formed(parsed);
    let ghost list = all@;
    if n < all.len() {
        let from: usize = all.len() - n;
        let r = all.split_off(from);
        assert(log_views(r@) =~= log_views(list).skip(list.len() - n));
        r
    } else {
        all
    }
}

/// Who accessed what is told by the file, the binary and its pid, in this order
/// and in full; a detail follows in brackets.
pub proof fn law_accesses_are_told_in_full(
    file: Seq<char>,
    binary: Seq<char>,
    pid: u32,
    detail: Seq<char>,
)
    ensures
        access_text(file, binary, pid, None) == file + " ← "@ + binary + " (pid "@ + decimal(
            pid as nat,
        ) + ")"@,
        access_text(file, binary, pid, Some(detail)) == access_text(file, binary, pid, None)
            + " ["@ + detail + "]"@,
{
    let told = file + " ← "@ + binary + " (pid "@ + decimal(pid as nat) + ")"@;
    assert(access_text(file, binary, pid, None) =~= told);
    assert(access_text(file, binary, pid, Some(detail)) =~= told + " ["@ + detail + "]"@);
}

/// An entry is shown with its time first, then the decision and the direction in
/// fields of five characters, then who accessed what.
pub proof fn law_entries_are_shown_in_full(e: EntryView)
    ensures
        entry_text(e) == e.timestamp + ("  "@ + pad_right(e.decision, 5) + (" "@ + pad_right(
            e.access,
            5,
        ) + (" "@ + access_text(e.file, e.binary, e.pid, e.detail)))),
{
    assert(entry_text(e) =~= e.timestamp + ("  "@ + pad_right(e.decision, 5) + (" "@ + pad_right(
        e.access,
        5,
    ) + (" "@ + access_text(e.file, e.binary, e.pid, e.detail)))));
}

/// Apart from white space around it, a destination that is empty or one of two
/// words means the daemon's own log, and any other is the path of a file.
pub proof fn law_other_destinations_are_files(destination: Seq<char>, home: Option<Seq<u8>>)
    ensures
        log_file(destination, home) is None <==> trim(destination).len() == 0 || trim(destination)
            == "stdout"@ || trim(destination) == "journal"@,
        log_file(destination, home) matches Some(path) ==> path == expanded(
            trim(destination),
            home,
        ),
        is_journal(trim(destination)) == log_file(destination, home) is None,
{
    reveal_strlit("");
    assert(trim(destination).len() == 0 ==> trim(destination) =~= ""@);
}

/// The log tells an access that went ahead from one that did not, and each
/// direction from the others.
pub proof fn law_log_words_tell_decisions_apart(decision: Decision, access: Access)
    ensures
        decision == Decision::DenyAlways || decision == Decision::DenyOnce ==> decision_word(
            decision,
        ) == "DENY"@,
        decision != Decision::DenyAlways && decision != Decision::DenyOnce ==> decision_word(
            decision,
        ) == "ALLOW"@,
        access == Access::Read ==> access_word(access) == "READ"@,
        access == Access::Write ==> access_word(access) == "WRITE"@,
        access == Access::Any ==> access_word(access) == "ACCESS"@,
{
}

/// An access is recorded with everything that is known of it.
pub proof fn law_accesses_are_recorded_in_full(
    caller: Caller,
    file: Seq<u8>,
    access: Access,
    decision: Decision,
    detail: Option<Seq<char>>,
    timestamp: Seq<char>,
)
    ensures
        ({
            let e = access_entry(caller, file, access, decision, detail, timestamp);
            &&& e.timestamp == timestamp
            &&& e.decision == decision_word(decision)
            &&& e.access == access_word(access)
            &&& e.file == text_of_bytes(file)
            &&& e.binary == text_of_bytes(caller.binary)
            &&& e.pid == caller.pid
            &&& e.detail == detail
        }),
{
}

/// The recent entries are as many as were asked for and are there, and they are
/// the last ones, in their order.
pub proof fn law_the_last_entries_are_recent<T>(list: Seq<T>, n: int, i: int)
    requires
        0 <= n,
    ensures
        n <= list.len() ==> last_of(list, n).len() == n,
        n >= list.len() ==> last_of(list, n) == list,
        0 <= i < n <= list.len() ==> last_of(list, n)[i] == list[list.len() - n + i],
{
    if n == list.len() {
        assert(last_of(list, n) =~= list);
    }
}

/// Every line that is an entry counts, in order, and a malformed line does not.
pub proof fn law_malformed_lines_do_not_count(
    parsed: Seq<Option<AccessLogEntry>>,
    entry: AccessLogEntry,
)
    ensures
        entries_in(Seq::empty()) == Seq::<EntryView>::empty(),
        entries_in(parsed.push(Some(entry))) == entries_in(parsed).push(entry@),
        entries_in(parsed.push(None)) == entries_in(parsed),
{
    assert(parsed.push(Some(entry)).drop_last() =~= parsed);
    assert(parsed.push(None).drop_last() =~= parsed);
}

/// A list of entries has each entry at its place, with every field.
pub proof fn law_entries_keep_every_field(entries: Seq<AccessLogEntry>, i: int)
    requires
        0 <= i < entries.len(),
    ensures
        log_views(entries).len() == entries.len(),
        ({
            let e = entries[i];
            let v = log_views(entries)[i];
            &&& v.timestamp == e.timestamp@
            &&& v.decision == e.decision@
            &&& v.access == e.access@
            &&& v.file == e.file@
            &&& v.binary == e.binary@
            &&& v.pid == e.pid
            &&& v.detail == opt_text(e.detail)
        }),
{
}

} // verus!
