//! The configuration file: settings, watched files and rules, and where the
//! daemon's own files live.
use crate::path::{joined, opt_path, path_list, same_bytes, FilePath};
use crate::policy::rule::Access;
use crate::text::{
    chars_of, copy_opt, decimal, decimal_string, has_prefix, lemma_decimal_digits, opt_text,
    starts_with, string_of,
};
use crate::toml_doc::{
    document_rest, document_table_texts, document_tables, document_text, parse_document,
    remove_table, render, table_count, table_text, toml_parse,
};
use vstd::prelude::*;
use vstd::string::*;
use vstd::utf8::*;

verus! {

/// The whole configuration.
#[derive(Debug)]
pub struct Config {
    pub settings: Settings,
    pub watch: Vec<WatchEntry>,
    pub rule: Vec<RuleEntry>,
}

/// Global settings.
#[derive(Debug)]
pub struct Settings {
    pub default_action: DefaultAction,
    /// Seconds that a prompt waits for an answer.
    pub prompt_timeout: u64,
    pub prompt_method: PromptMethod,
    pub restore_on_stop: bool,
    pub log_destination: String,
}

/// The prompt timeout of a configuration that sets none, in seconds.
pub fn default_timeout() -> (r: u64)
    ensures
        r == 30,
{
    30
}

/// The log destination of a configuration that sets none.
pub fn default_log_dest() -> (r: String)
    ensures
        r@ == "stdout"@,
{
    "stdout".to_string()
}

/// What happens to an access that no rule and no user decides.
#[derive(Debug, Clone, Copy, PartialEq, Eq, Structural)]
pub enum DefaultAction {
    Allow,
    Deny,
}

impl Default for DefaultAction {
    fn default() -> (r: DefaultAction)
        ensures
            r == DefaultAction::Deny,
    {
        DefaultAction::Deny
    }
}

/// How the agent shows a prompt.
#[derive(Debug, Clone, Copy, PartialEq, Eq, Structural)]
pub enum PromptMethod {
    Terminal,
    Gui,
    Notification,
}

impl Default for PromptMethod {
    fn default() -> (r: PromptMethod)
        ensures
            r == PromptMethod::Terminal,
    {
        PromptMethod::Terminal
    }
}

/// A watched file.
#[derive(Debug)]
pub struct WatchEntry {
    pub path: String,
    /// Parsed, and not consulted: unknown accesses follow the global setting.
    pub default_action: Option<DefaultAction>,
}

/// A rule as the configuration file holds it.
#[derive(Debug)]
pub struct RuleEntry {
    pub file: String,
    pub binary: String,
    pub action: RuleAction,
    /// Direction the rule authorizes. Absent in legacy configs → `read`, so
    /// every previously-written rule keeps its read-only meaning.
    pub access: Access,
    /// sha256 of the binary when the rule was captured (binary-identity pin).
    pub sha256: Option<String>,
    /// macOS code-signing identity captured with the rule.
    pub signature: Option<String>,
    /// For interpreter rules, the pinned script path (narrows the interpreter
    /// to a specific program).
    pub script: Option<String>,
    /// sha256 of the pinned script's contents (interpreter rules only). Catches
    /// in-place tampering on distros where the script path is stable.
    pub script_sha256: Option<String>,
}

/// The contents of a [`RuleEntry`].
pub ghost struct RuleEntryView {
    pub file: Seq<char>,
    pub binary: Seq<char>,
    pub action: RuleAction,
    pub access: Access,
    pub sha256: Option<Seq<char>>,
    pub signature: Option<Seq<char>>,
    pub script: Option<Seq<char>>,
    pub script_sha256: Option<Seq<char>>,
}

impl View for RuleEntry {
    type V = RuleEntryView;

    open spec fn view(&self) -> RuleEntryView {
        RuleEntryView {
            file: self.file@,
            binary: self.binary@,
            action: self.action,
            access: self.access,
            sha256: opt_text(self.sha256),
            signature: opt_text(self.signature),
            script: opt_text(self.script),
            script_sha256: opt_text(self.script_sha256),
        }
    }
}

/// The contents of a list of rule entries.
pub open spec fn entry_views(entries: Seq<RuleEntry>) -> Seq<RuleEntryView> {
    entries.map_values(|e: RuleEntry| e@)
}

/// Whether a rule's direction is the one that an entry without a direction
/// means, so that it need not be written out.
pub fn access_is_read(access: &Access) -> (r: bool)
    ensures
        r == (*access == Access::Read),
{
    *access == Access::Read
}

#[derive(Debug, Clone, Copy, PartialEq, Eq, Structural)]
pub enum RuleAction {
    Allow,
    Deny,
}

/// `path` with a leading `~/` resolved against the guarded user's home.
pub open spec fn expanded(path: Seq<char>, home: Option<Seq<u8>>) -> Seq<u8> {
    if starts_with(path, "~/"@) && home is Some {
        joined(home->0, encode_utf8(path.skip(2)))
    } else {
        encode_utf8(path)
    }
}

/// The text of `path` with a leading `~/` resolved; `path` itself where that is
/// no text.
pub open spec fn expanded_text(path: Seq<char>, home: Option<Seq<u8>>) -> Seq<char> {
    if valid_utf8(expanded(path, home)) {
        decode_utf8(expanded(path, home))
    } else {
        path
    }
}

/// A rule entry with a leading `~/` resolved in its paths: the file, the binary
/// and the script.
pub open spec fn expanded_entry(entry: RuleEntryView, home: Option<Seq<u8>>) -> RuleEntryView {
    RuleEntryView {
        file: expanded_text(entry.file, home),
        binary: expanded_text(entry.binary, home),
        script: match entry.script {
            Some(script) => Some(expanded_text(script, home)),
            None => None,
        },
        ..entry
    }
}

fn expand_text(path: &str, home: &Option<FilePath>) -> (r: String)
    ensures
        r@ == expanded_text(path@, opt_path(*home)),
{
    let full = Config::expand_path(path, home);
    let text = full.to_text();
    let again = FilePath::from_text(text.as_str());
    proof {
        encode_utf8_valid_utf8(text@);
        if valid_utf8(full@) {
            decode_utf8_encode_utf8(full@);
        }
    }
    if same_bytes(again.as_bytes(), full.as_bytes()) {
        text
    } else {
        path.to_string()
    }
}

/// What `rules remove` took out of the configuration file.
#[derive(Debug)]
pub struct RemovedRule {
    /// The file's new contents.
    pub contents: String,
    /// The removed rule's binary, `?` if it had none.
    pub binary: String,
    /// The removed rule's file, `?` if it had none.
    pub file: String,
}

/// Why a rule could not be removed.
#[derive(Debug)]
pub enum RemoveRuleError {
    /// The configuration file is not TOML.
    Malformed(toml_edit::TomlError),
    /// The configuration file has no `[[rule]]` tables.
    NoRules,
    /// There are only `count` rules.
    OutOfRange { index: usize, count: usize },
}

/// The value, or `?` where there is none.
pub open spec fn or_unknown(s: Option<Seq<char>>) -> Seq<char> {
    match s {
        Some(t) => t,
        None => "?"@,
    }
}

fn text_or_unknown(s: Option<String>) -> (r: String)
    ensures
        r@ == or_unknown(opt_text(s)),
{
    match s {
        Some(t) => t,
        None => "?".to_string(),
    }
}

/// Checks a rule index against the number of rules, if there are any tables.
pub fn check_rule_index(count: Option<usize>, index: usize) -> (r: Result<(), RemoveRuleError>)
    ensures
        match count {
            None => r matches Err(RemoveRuleError::NoRules),
            Some(n) => if index < n {
                r is Ok
            } else {
                r == Err::<(), RemoveRuleError>(RemoveRuleError::OutOfRange { index, count: n })
            },
        },
{
    match count {
        None => Err(RemoveRuleError::NoRules),
        Some(n) => {
            if index >= n {
                Err(RemoveRuleError::OutOfRange { index, count: n })
            } else {
                Ok(())
            }
        },
    }
}

impl Config {
    /// The text that appending a rule adds to the end of the configuration
    /// file: a `[[rule]]` header on a line of its own, then the rule's fields.
    pub fn append_rule(rule_toml: &str) -> (block: String)
        ensures
            block@ == "\n[[rule]]\n"@ + rule_toml@,
    {
        "\n[[rule]]\n".to_string().concat(rule_toml)
    }

    /// Remove the `[[rule]]` at `index` (0-based, matching `rule` order) from the
    /// config file's `contents`, preserving the rest of the file's comments and
    /// formatting. The removed entry's binary and file come back for reporting.
    pub fn remove_rule_at(contents: &str, index: usize) -> (r: Result<RemovedRule, RemoveRuleError>)
        ensures
            match toml_parse(contents@) {
                None => r matches Err(RemoveRuleError::Malformed(_)),
                Some((tables, rest, texts)) => if !tables.contains_key("rule"@) {
                    r matches Err(RemoveRuleError::NoRules)
                } else if index < tables["rule"@].len() {
                    r matches Ok(removed) && {
                        let rules = tables["rule"@];
                        &&& texts["rule"@].len() == rules.len()
                        &&& removed.binary@ == or_unknown(rules[index as int].get("binary"@))
                        &&& removed.file@ == or_unknown(rules[index as int].get("file"@))
                        &&& exists|doc: toml_edit::DocumentMut|
                            {
                                &&& document_tables(doc) == tables.insert(
                                    "rule"@,
                                    rules.remove(index as int),
                                )
                                &&& document_table_texts(doc)["rule"@] == texts["rule"@].remove(
                                    index as int,
                                )
                                &&& document_rest(doc)["rule"@] == rest["rule"@]
                                &&& removed.contents@ == #[trigger] document_text(doc)
                            }
                    }
                } else {
                    r matches Err(RemoveRuleError::OutOfRange { index: i, count }) && i == index
                        && count == tables["rule"@].len()
                },
            },
    {
        let mut doc = match parse_document(contents) {
            Ok(doc) => doc,
            Err(e) => return Err(RemoveRuleError::Malformed(e)),
        };
        match check_rule_index(table_count(&doc, "rule"), index) {
            Ok(()) => {},
            Err(e) => return Err(e),
        }
        let binary = table_text(&doc, "rule", index, "binary");
        let file = table_text(&doc, "rule", index, "file");
        remove_table(&mut doc, "rule", index);
        Ok(
            RemovedRule {
                contents: render(&doc),
                binary: text_or_unknown(binary),
                file: text_or_unknown(file),
            },
        )
    }

    /// Expand a leading `~/` to the watched user's home directory.
    ///
    /// When file-guard runs as a privileged system daemon it is *not* the
    /// owner of the credentials it guards, so `~` must resolve to the target
    /// user's home, not root's (see [`target_home`]).
    pub fn expand_path(path: &str, home: &Option<FilePath>) -> (r: FilePath)
        ensures
            r@ == expanded(path@, opt_path(*home)),
    {
        let chars = chars_of(path);
        proof {
            reveal_strlit("~/");
        }
        if has_prefix(&chars, "~/") {
            if let Some(h) = home {
                let rest = string_of(&chars, 2, chars.len());
                assert(rest@ =~= path@.skip(2));
                return h.join(&FilePath::from_text(rest.as_str()));
            }
        }
        FilePath::from_text(path)
    }

    /// The configuration as it is loaded: with a leading `~/` expanded in all
    /// paths. A path that is no text once it is expanded is left to be expanded
    /// where it is used.
    pub fn expand_paths(self, home: &Option<FilePath>) -> (r: Config)
        ensures
            r.settings.default_action == self.settings.default_action,
            r.settings.prompt_timeout == self.settings.prompt_timeout,
            r.settings.prompt_method == self.settings.prompt_method,
            r.settings.restore_on_stop == self.settings.restore_on_stop,
            r.settings.log_destination@ == expanded_text(
                self.settings.log_destination@,
                opt_path(*home),
            ),
            r.watch@.len() == self.watch@.len(),
            forall|i: int|
                0 <= i < r.watch@.len() ==> (#[trigger] r.watch@[i]).path@ == expanded_text(
                    self.watch@[i].path@,
                    opt_path(*home),
                ) && r.watch@[i].default_action == self.watch@[i].default_action,
            entry_views(r.rule@) == entry_views(self.rule@).map_values(
                |e: RuleEntryView| expanded_entry(e, opt_path(*home)),
            ),
    {
        let ghost watched = self.watch@;
        let ghost ruled = entry_views(self.rule@);
        let ghost all = ruled.map_values(|e: RuleEntryView| expanded_entry(e, opt_path(*home)));
        let log_destination = expand_text(self.settings.log_destination.as_str(), home);
        let mut watch: Vec<WatchEntry> = Vec::new();
        let mut i: usize = 0;
        while i < self.watch.len()
            invariant
                i <= self.watch@.len(),
                watched == self.watch@,
                watch@.len() == i,
                forall|j: int|
                    0 <= j < i ==> (#[trigger] watch@[j]).path@ == expanded_text(
                        watched[j].path@,
                        opt_path(*home),
                    ) && watch@[j].default_action == watched[j].default_action,
            decreases self.watch@.len() - i,
        {
            let w = &self.watch[i];
            watch.push(
                WatchEntry {
                    path: expand_text(w.path.as_str(), home),
                    default_action: w.default_action,
                },
            );
            i = i + 1;
        }
        let mut rule: Vec<RuleEntry> = Vec::new();
        let mut k: usize = 0;
        assert(entry_views(rule@) =~= all.take(0));
        while k < self.rule.len()
            invariant
                k <= self.rule@.len(),
                ruled == entry_views(self.rule@),
                all == ruled.map_values(|e: RuleEntryView| expanded_entry(e, opt_path(*home))),
                entry_views(rule@) == all.take(k as int),
            decreases self.rule@.len() - k,
        {
            let e = &self.rule[k];
            let entry = RuleEntry {
                file: expand_text(e.file.as_str(), home),
                binary: expand_text(e.binary.as_str(), home),
                action: e.action,
                access: e.access,
                sha256: copy_opt(&e.sha256),
                signature: copy_opt(&e.signature),
                script: match &e.script {
                    Some(script) => Some(expand_text(script.as_str(), home)),
                    None => None,
                },
                script_sha256: copy_opt(&e.script_sha256),
            };
            let ghost before = rule@;
            let ghost v = entry@;
            assert(ruled[k as int] == e@);
            assert(v == expanded_entry(e@, opt_path(*home)));
            rule.push(entry);
            assert(entry_views(rule@) =~= entry_views(before).push(v));
            k = k + 1;
            assert(entry_views(rule@) =~= all.take(k as int));
        }
        assert(all.take(k as int) =~= all);
        Config { settings: Settings { log_destination, ..self.settings }, watch, rule }
    }

    /// Resolved watch paths with ~ expanded.
    pub fn watched_paths(&self, home: &Option<FilePath>) -> (r: Vec<FilePath>)
        ensures
            path_list(r@) == self.watch@.map_values(
                |w: WatchEntry| expanded(w.path@, opt_path(*home)),
            ),
    {
        let mut r: Vec<FilePath> = Vec::new();
        let mut i: usize = 0;
        let ghost all = self.watch@.map_values(
            |w: WatchEntry| expanded(w.path@, opt_path(*home)),
        );
        while i < self.watch.len()
            invariant
                i <= self.watch@.len(),
                all == self.watch@.map_values(
                    |w: WatchEntry| expanded(w.path@, opt_path(*home)),
                ),
                path_list(r@) == all.take(i as int),
            decreases self.watch@.len() - i,
        {
            let p = Config::expand_path(self.watch[i].path.as_str(), home);
            let ghost before = r@;
            r.push(p);
            assert(path_list(r@) =~= path_list(before).push(p@));
            i = i + 1;
            assert(path_list(r@) =~= all.take(i as int));
        }
        assert(all.take(i as int) =~= all);
        r
    }
}

/// The first of three values that is there.
pub open spec fn first_of<T>(a: Option<T>, b: Option<T>, c: Option<T>) -> Option<T> {
    if a is Some {
        a
    } else if b is Some {
        b
    } else {
        c
    }
}

/// The home directory of the user whose credentials are being guarded: that of
/// `FILE_GUARD_USER` (explicit), else that of `SUDO_USER`, else that of the
/// running user. A user that cannot be resolved counts as not given.
pub fn target_home(
    guard_user: Option<FilePath>,
    sudo_user: Option<FilePath>,
    running_user: Option<FilePath>,
) -> (r: Option<FilePath>)
    ensures
        r == first_of(guard_user, sudo_user, running_user),
{
    match guard_user {
        Some(h) => Some(h),
        None => match sudo_user {
            Some(h) => Some(h),
            None => running_user,
        },
    }
}

/// The uid of the guarded user — the account the prompt agent runs as.
/// `FILE_GUARD_USER` > `SUDO_USER` > the running user.
pub fn target_uid(guard_user: Option<u32>, sudo_user: Option<u32>, running_uid: u32) -> (r: u32)
    ensures
        Some(r) == first_of(guard_user, sudo_user, Some(running_uid)),
{
    match guard_user {
        Some(u) => u,
        None => match sudo_user {
            Some(u) => u,
            None => running_uid,
        },
    }
}

/// Where the configuration file is.
pub open spec fn config_location(
    explicit: Option<Seq<u8>>,
    home: Option<Seq<u8>>,
    config_dir: Option<Seq<u8>>,
) -> Seq<u8> {
    let file = |dir: Seq<u8>|
        joined(joined(dir, encode_utf8("file-guard"@)), encode_utf8("config.toml"@));
    match (explicit, home, config_dir) {
        (Some(path), _, _) => path,
        (None, Some(h), _) => file(joined(h, encode_utf8(".config"@))),
        (None, None, Some(dir)) => file(dir),
        (None, None, None) => file(encode_utf8("~/.config"@)),
    }
}

/// Path of the configuration file. `FILE_GUARD_CONFIG` wins, so that the root
/// daemon reads the operator's config; then the guarded user's home; then the
/// running user's configuration directory.
pub fn config_path(
    explicit: Option<FilePath>,
    home: &Option<FilePath>,
    config_dir: Option<FilePath>,
) -> (r: FilePath)
    ensures
        r@ == config_location(opt_path(explicit), opt_path(*home), opt_path(config_dir)),
{
    if let Some(path) = explicit {
        return path;
    }
    let dir = match home {
        Some(h) => h.join_text(".config"),
        None => match config_dir {
            Some(dir) => dir,
            None => FilePath::from_text("~/.config"),
        },
    };
    dir.join_text("file-guard").join_text("config.toml")
}

/// A file in the runtime directory of the user `uid`.
pub open spec fn run_user_path(uid: nat, rest: Seq<char>) -> Seq<u8> {
    encode_utf8("/run/user/"@ + decimal(uid) + rest)
}

fn run_user_file(uid: u32, rest: &str) -> (r: FilePath)
    ensures
        r@ == run_user_path(uid as nat, rest@),
{
    let text = "/run/user/".to_string().concat(decimal_string(uid as u64).as_str()).concat(rest);
    FilePath::from_text(text.as_str())
}

/// Where the PID file is.
pub open spec fn pid_file_location(
    explicit: Option<Seq<u8>>,
    euid: u32,
    runtime_dir: Option<Seq<u8>>,
    uid: u32,
) -> Seq<u8> {
    if explicit is Some {
        explicit->0
    } else if euid == 0 {
        encode_utf8("/run/file-guard/daemon.pid"@)
    } else if runtime_dir is Some {
        joined(joined(runtime_dir->0, encode_utf8("file-guard"@)), encode_utf8("daemon.pid"@))
    } else {
        run_user_path(uid as nat, "/file-guard/daemon.pid"@)
    }
}

/// Path of the daemon's PID file, used by `file-guard stop` and `status` to
/// find a running daemon. `FILE_GUARD_PID_FILE` > `/run/file-guard/daemon.pid`
/// (root) > the user's runtime dir.
pub fn pid_file_path(
    explicit: Option<FilePath>,
    euid: u32,
    runtime_dir: Option<FilePath>,
    uid: u32,
) -> (r: FilePath)
    ensures
        r@ == pid_file_location(opt_path(explicit), euid, opt_path(runtime_dir), uid),
{
    if let Some(path) = explicit {
        return path;
    }
    if euid == 0 {
        return FilePath::from_text("/run/file-guard/daemon.pid");
    }
    if let Some(dir) = runtime_dir {
        return dir.join_text("file-guard").join_text("daemon.pid");
    }
    run_user_file(uid, "/file-guard/daemon.pid")
}

/// Where the agent's socket is.
pub open spec fn agent_socket_location(
    explicit: Option<Seq<u8>>,
    euid: u32,
    guarded_uid: u32,
    runtime_dir: Option<Seq<u8>>,
    uid: u32,
) -> Seq<u8> {
    if explicit is Some {
        explicit->0
    } else if euid == 0 {
        run_user_path(guarded_uid as nat, "/file-guard-agent.sock"@)
    } else if runtime_dir is Some {
        joined(runtime_dir->0, encode_utf8("file-guard-agent.sock"@))
    } else {
        run_user_path(uid as nat, "/file-guard-agent.sock"@)
    }
}

/// Canonical path of the daemon↔agent socket. Both ends resolve it identically.
///
/// `FILE_GUARD_AGENT_SOCKET` wins. The root daemon connects to the guarded
/// user's agent, which lives in that user's runtime dir; a user-mode agent or
/// daemon uses its own runtime dir.
pub fn agent_socket_path(
    explicit: Option<FilePath>,
    euid: u32,
    guarded_uid: u32,
    runtime_dir: Option<FilePath>,
    uid: u32,
) -> (r: FilePath)
    ensures
        r@ == agent_socket_location(
            opt_path(explicit),
            euid,
            guarded_uid,
            opt_path(runtime_dir),
            uid,
        ),
{
    if let Some(path) = explicit {
        return path;
    }
    if euid == 0 {
        return run_user_file(guarded_uid, "/file-guard-agent.sock");
    }
    if let Some(dir) = runtime_dir {
        return dir.join_text("file-guard-agent.sock");
    }
    run_user_file(uid, "/file-guard-agent.sock")
}

/// A path that does not begin with `~/` means itself, whatever the home is.
pub proof fn law_other_paths_are_kept(path: Seq<char>, home: Option<Seq<u8>>)
    requires
        !starts_with(path, "~/"@),
    ensures
        expanded(path, home) == encode_utf8(path),
{
}

/// Expanding a path when the configuration is loaded does not change what it is
/// expanded to where it is used, unless the home directory itself is written
/// with `~/`.
pub proof fn law_expanding_on_load_keeps_the_path(path: Seq<char>, home: Option<Seq<u8>>)
    requires
        valid_utf8(expanded(path, home)) && home is Some ==> !starts_with(
            decode_utf8(expanded(path, home)),
            "~/"@,
        ),
    ensures
        expanded(expanded_text(path, home), home) == expanded(path, home),
{
    if valid_utf8(expanded(path, home)) {
        decode_utf8_encode_utf8(expanded(path, home));
    }
}

/// The daemon and the agent of the guarded user find the same socket: with the
/// same explicit path always, and without one where the user's runtime
/// directory is the `/run/user` directory of its uid.
pub proof fn law_daemon_and_agent_share_the_socket(
    explicit: Option<Seq<u8>>,
    guarded_uid: u32,
    daemon_runtime: Option<Seq<u8>>,
    agent_runtime: Option<Seq<u8>>,
)
    requires
        agent_runtime is Some ==> agent_runtime->0 == run_user_path(guarded_uid as nat, ""@),
    ensures
        agent_socket_location(explicit, 0, guarded_uid, daemon_runtime, 0) == agent_socket_location(
            explicit,
            guarded_uid,
            guarded_uid,
            agent_runtime,
            guarded_uid,
        ),
{
    let n = decimal(guarded_uid as nat);
    let dir = "/run/user/"@ + n + ""@;
    let rest = "file-guard-agent.sock"@;
    let full = "/run/user/"@ + n + "/file-guard-agent.sock"@;
    lemma_decimal_digits(guarded_uid as nat);
    reveal_strlit("/run/user/");
    reveal_strlit("");
    reveal_strlit("file-guard-agent.sock");
    reveal_strlit("/file-guard-agent.sock");
    assert(dir.last() == n.last());
    assert(is_ascii_chars(dir));
    assert(is_ascii_chars(full));
    is_ascii_chars_encode_utf8(dir);
    is_ascii_chars_encode_utf8(rest);
    is_ascii_chars_encode_utf8(full);
    if agent_runtime is Some {
        assert(joined(encode_utf8(dir), encode_utf8(rest)) =~= encode_utf8(full));
    }
}

/// A leading `~/` stands for the home directory, and the rest of the path follows
/// it; without a home, and for every other path, the path is taken as written.
pub proof fn law_home_paths_are_resolved(
    rest: Seq<char>,
    home: Seq<u8>,
    path: Seq<char>,
    any_home: Option<Seq<u8>>,
)
    ensures
        expanded(seq!['~', '/'] + rest, Some(home)) == joined(home, encode_utf8(rest)),
        expanded(path, None) == encode_utf8(path),
        path.len() < 2 || path[0] != '~' || path[1] != '/' ==> expanded(path, any_home)
            == encode_utf8(path),
{
    reveal_strlit("~/");
    let s = seq!['~', '/'] + rest;
    assert("~/"@ =~= seq!['~', '/']);
    assert("~/"@.is_prefix_of(s));
    assert(s.skip(2) =~= rest);
    if starts_with(path, "~/"@) {
        assert(path[0] == "~/"@[0] && path[1] == "~/"@[1]);
    }
}

/// A path that is expanded to text is that path written out, and one that is
/// expanded to something else is left as it was.
pub proof fn law_expanded_texts_spell_the_path(path: Seq<char>, home: Option<Seq<u8>>)
    ensures
        valid_utf8(expanded(path, home)) ==> encode_utf8(expanded_text(path, home)) == expanded(
            path,
            home,
        ),
        !valid_utf8(expanded(path, home)) ==> expanded_text(path, home) == path,
{
    if valid_utf8(expanded(path, home)) {
        decode_utf8_encode_utf8(expanded(path, home));
    }
}

/// Loading a rule expands its file, its binary and its script, and changes
/// nothing else of it.
pub proof fn law_loading_expands_the_paths_of_a_rule(entry: RuleEntryView, home: Option<Seq<u8>>)
    ensures
        ({
            let loaded = expanded_entry(entry, home);
            &&& loaded.file == expanded_text(entry.file, home)
            &&& loaded.binary == expanded_text(entry.binary, home)
            &&& loaded.script is Some == entry.script is Some
            &&& entry.script is Some ==> loaded.script->0 == expanded_text(entry.script->0, home)
            &&& loaded.action == entry.action
            &&& loaded.access == entry.access
            &&& loaded.sha256 == entry.sha256
            &&& loaded.signature == entry.signature
            &&& loaded.script_sha256 == entry.script_sha256
        }),
{
}

/// A list of entries has each entry at its place, with every field.
pub proof fn law_entries_show_every_field(entries: Seq<RuleEntry>, i: int)
    requires
        0 <= i < entries.len(),
    ensures
        entry_views(entries).len() == entries.len(),
        ({
            let e = entries[i];
            let v = entry_views(entries)[i];
            &&& v.file == e.file@
            &&& v.binary == e.binary@
            &&& v.action == e.action
            &&& v.access == e.access
            &&& v.sha256 == opt_text(e.sha256)
            &&& v.signature == opt_text(e.signature)
            &&& v.script == opt_text(e.script)
            &&& v.script_sha256 == opt_text(e.script_sha256)
        }),
{
}

/// Of several values the first that is there counts, and none only where there is
/// none.
pub proof fn law_the_first_value_counts<T>(a: Option<T>, b: Option<T>, c: Option<T>, x: T)
    ensures
        first_of(Some(x), b, c) == Some(x),
        first_of(None, Some(x), c) == Some(x),
        first_of(None, None, c) == c,
        first_of(a, b, c) is None <==> a is None && b is None && c is None,
{
}

/// A value that is there is reported as it is, and one that is missing as `?`.
pub proof fn law_missing_values_are_marked(s: Seq<char>)
    ensures
        or_unknown(Some(s)) == s,
        or_unknown(None) == "?"@,
{
}

proof fn lemma_ascii_concat(a: Seq<char>, b: Seq<char>)
    requires
        is_ascii_chars(a),
        is_ascii_chars(b),
    ensures
        is_ascii_chars(a + b),
        encode_utf8(a + b) == encode_utf8(a) + encode_utf8(b),
{
    is_ascii_chars_encode_utf8(a);
    is_ascii_chars_encode_utf8(b);
    is_ascii_chars_encode_utf8(a + b);
    assert(encode_utf8(a + b) =~= encode_utf8(a) + encode_utf8(b));
}

/// Joining name by name is joining with the names separated by `/`.
proof fn lemma_joined_twice(dir: Seq<u8>, a: Seq<char>, b: Seq<char>)
    requires
        is_ascii_chars(a),
        is_ascii_chars(b),
        a.len() > 0,
        a[0] != '/',
        a.last() != '/',
        b.len() > 0,
        b[0] != '/',
    ensures
        is_ascii_chars(a + seq!['/'] + b),
        joined(joined(dir, encode_utf8(a)), encode_utf8(b)) == joined(
            dir,
            encode_utf8(a + seq!['/'] + b),
        ),
{
    let slash = seq!['/'];
    lemma_ascii_concat(a, slash);
    lemma_ascii_concat(a + slash, b);
    is_ascii_chars_encode_utf8(a);
    is_ascii_chars_encode_utf8(slash);
    is_ascii_chars_encode_utf8(b);
    let x = encode_utf8(a);
    let y = encode_utf8(b);
    assert(encode_utf8(slash) =~= seq![0x2fu8]);
    assert(x[0] == a[0] as u8 && x.last() == a.last() as u8 && y[0] == b[0] as u8);
    assert(joined(joined(dir, x), y) =~= joined(dir, x + seq![0x2fu8] + y));
}

/// The configuration file is the one that was given; else the one below the
/// guarded user's home; else the one below the configuration directory.
pub proof fn law_the_configuration_is_in_its_place(
    explicit: Seq<u8>,
    home: Seq<u8>,
    dir: Seq<u8>,
    other_home: Option<Seq<u8>>,
    other_dir: Option<Seq<u8>>,
)
    ensures
        config_location(Some(explicit), other_home, other_dir) == explicit,
        config_location(None, Some(home), other_dir) == joined(
            home,
            encode_utf8(".config/file-guard/config.toml"@),
        ),
        config_location(None, None, Some(dir)) == joined(
            dir,
            encode_utf8("file-guard/config.toml"@),
        ),
        config_location(None, None, None) == joined(
            encode_utf8("~/.config"@),
            encode_utf8("file-guard/config.toml"@),
        ),
{
    reveal_strlit(".config");
    reveal_strlit("file-guard");
    reveal_strlit("config.toml");
    reveal_strlit("file-guard/config.toml");
    reveal_strlit(".config/file-guard/config.toml");
    let slash = seq!['/'];
    assert("file-guard/config.toml"@ =~= "file-guard"@ + slash + "config.toml"@);
    assert(".config/file-guard/config.toml"@ =~= ".config"@ + slash + "file-guard/config.toml"@);
    lemma_joined_twice(joined(home, encode_utf8(".config"@)), "file-guard"@, "config.toml"@);
    lemma_joined_twice(home, ".config"@, "file-guard/config.toml"@);
    lemma_joined_twice(dir, "file-guard"@, "config.toml"@);
    lemma_joined_twice(encode_utf8("~/.config"@), "file-guard"@, "config.toml"@);
}

/// A file of a user's runtime directory has the user's number in its path.
pub proof fn law_runtime_files_are_below_the_uid(uid: nat, rest: Seq<char>)
    ensures
        run_user_path(uid, rest) == encode_utf8("/run/user/"@ + decimal(uid) + rest),
{
}

/// The PID file is the one that was given; else root's own; else the one below
/// the user's runtime directory, which is named by the uid where none is set.
pub proof fn law_the_pid_file_is_in_its_place(
    explicit: Seq<u8>,
    euid: u32,
    dir: Seq<u8>,
    runtime_dir: Option<Seq<u8>>,
    uid: u32,
)
    ensures
        pid_file_location(Some(explicit), euid, runtime_dir, uid) == explicit,
        pid_file_location(None, 0, runtime_dir, uid) == encode_utf8("/run/file-guard/daemon.pid"@),
        euid != 0 ==> pid_file_location(None, euid, Some(dir), uid) == joined(
            dir,
            encode_utf8("file-guard/daemon.pid"@),
        ),
        euid != 0 ==> pid_file_location(None, euid, None, uid) == encode_utf8(
            "/run/user/"@ + decimal(uid as nat) + "/file-guard/daemon.pid"@,
        ),
{
    reveal_strlit("file-guard");
    reveal_strlit("daemon.pid");
    reveal_strlit("file-guard/daemon.pid");
    assert("file-guard/daemon.pid"@ =~= "file-guard"@ + seq!['/'] + "daemon.pid"@);
    lemma_joined_twice(dir, "file-guard"@, "daemon.pid"@);
}

/// The agent's socket is the one that was given; else, for root, the one of the
/// guarded user; else the one in the own runtime directory, which is named by the
/// uid where none is set.
pub proof fn law_the_socket_is_in_its_place(
    explicit: Seq<u8>,
    euid: u32,
    guarded_uid: u32,
    dir: Seq<u8>,
    runtime_dir: Option<Seq<u8>>,
    uid: u32,
)
    ensures
        agent_socket_location(Some(explicit), euid, guarded_uid, runtime_dir, uid) == explicit,
        agent_socket_location(None, 0, guarded_uid, runtime_dir, uid) == encode_utf8(
            "/run/user/"@ + decimal(guarded_uid as nat) + "/file-guard-agent.sock"@,
        ),
        euid != 0 ==> agent_socket_location(None, euid, guarded_uid, Some(dir), uid) == joined(
            dir,
            encode_utf8("file-guard-agent.sock"@),
        ),
        euid != 0 ==> agent_socket_location(None, euid, guarded_uid, None, uid) == encode_utf8(
            "/run/user/"@ + decimal(uid as nat) + "/file-guard-agent.sock"@,
        ),
{
}

} // verus!
