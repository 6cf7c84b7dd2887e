use file_guard::config::{
    Config, DefaultAction, PromptMethod, RuleAction, RuleEntry, Settings, WatchEntry,
};
use file_guard::path::FilePath;
use file_guard::policy::access::{AccessCheck, CheckAction, CheckEvent};
use file_guard::policy::engine::{FileHashes, Platform, PolicyEngine, Verdict};
use file_guard::policy::rule::{truncates, Access, Action, Decision, Rule};
use file_guard::policy::session::{ProcessId, SessionState};
use file_guard::process::identify::ProcessInfo;
use file_guard::prompt::client::{ExchangeError, PromptClient};
use file_guard::prompt::protocol::PromptOutcome;
use file_guard::prompt::types::UserChoice;
use file_guard::time::TimeSpan;
use sha2::{Digest, Sha256};

fn sha256(contents: &[u8]) -> String {
    Sha256::digest(contents)
        .iter()
        .map(|b| format!("{b:02x}"))
        .collect()
}

fn path(text: &str) -> FilePath {
    FilePath::from_text(text)
}

fn settings(default_action: DefaultAction) -> Settings {
    Settings {
        default_action,
        prompt_timeout: 30,
        prompt_method: PromptMethod::Terminal,
        restore_on_stop: false,
        log_destination: "stdout".to_string(),
    }
}

fn engine_with(rules: Vec<RuleEntry>, platform: Platform) -> PolicyEngine {
    let config = Config {
        settings: settings(DefaultAction::Deny),
        watch: vec![WatchEntry { path: "/f".to_string(), default_action: None }],
        rule: rules,
    };
    let client = PromptClient::new(path("/nonexistent.sock"), TimeSpan::from_secs(1), 0);
    PolicyEngine::new(&config, client, &Some(path("/home/a")), platform)
}

fn engine() -> PolicyEngine {
    engine_with(vec![], Platform::Linux)
}

fn info_for(binary: &str) -> ProcessInfo {
    ProcessInfo {
        pid: 1,
        start_time: 1,
        binary_path: path(binary),
        binary_name: "x".to_string(),
        script: None,
        parent_chain: vec![],
        code_signature: None,
    }
}

fn entry(file: &str, binary: &str, action: RuleAction, access: Access) -> RuleEntry {
    RuleEntry {
        file: file.to_string(),
        binary: binary.to_string(),
        action,
        access,
        sha256: None,
        signature: None,
        script: None,
        script_sha256: None,
    }
}

fn rule_for(binary: &str, sha256: Option<String>) -> Rule {
    Rule {
        file: path("/f"),
        binary: path(binary),
        action: Action::Allow,
        access: Access::Read,
        sha256,
        signature: None,
        script: None,
        script_sha256: None,
    }
}

fn hashes(binary: Option<&str>, script: Option<&str>) -> FileHashes {
    FileHashes { binary: binary.map(str::to_string), script: script.map(str::to_string) }
}

#[test]
fn open_flags_classify_direction() {
    assert_eq!(Access::from_open_flags(libc::O_RDONLY), Access::Read);
    assert_eq!(Access::from_open_flags(libc::O_WRONLY), Access::Write);
    assert_eq!(Access::from_open_flags(libc::O_RDWR), Access::Write);
    assert_eq!(
        Access::from_open_flags(libc::O_RDONLY | libc::O_TRUNC),
        Access::Write
    );
    assert_eq!(
        Access::from_open_flags(libc::O_WRONLY | libc::O_APPEND),
        Access::Write
    );
    // O_CREAT alone (read-create) is still a read; create() is gated separately.
    assert_eq!(
        Access::from_open_flags(libc::O_RDONLY | libc::O_CREAT),
        Access::Read
    );
}

#[test]
fn open_flag_values_are_those_of_the_system() {
    assert!(truncates(libc::O_TRUNC));
    assert!(!truncates(!libc::O_TRUNC));
    assert_eq!(Access::from_open_flags(libc::O_RDONLY | libc::O_APPEND), Access::Write);
    assert_eq!(libc::O_TRUNC, 0x200);
    assert_eq!(libc::O_APPEND, 0x400);
    assert_eq!(libc::O_ACCMODE, 0x3);
    assert_eq!(libc::O_WRONLY, 0x1);
    assert_eq!(libc::O_RDWR, 0x2);
}

#[test]
fn covers_semantics() {
    assert!(Access::Any.covers(Access::Read));
    assert!(Access::Any.covers(Access::Write));
    assert!(Access::Read.covers(Access::Read));
    assert!(!Access::Read.covers(Access::Write));
    assert!(!Access::Write.covers(Access::Read));
}

#[test]
fn verbs_and_defaults() {
    assert_eq!(Access::Read.verb(), "read");
    assert_eq!(Access::Write.verb(), "write");
    assert_eq!(Access::Any.verb(), "access");
    assert_eq!(Access::default(), Access::Read);
    assert!(Decision::AllowAlways.is_allowed());
    assert!(Decision::AllowSession.is_allowed());
    assert!(Decision::AllowOnce.is_allowed());
    assert!(!Decision::DenyAlways.is_allowed());
    assert!(!Decision::DenyOnce.is_allowed());
}

#[test]
fn sha256_mismatch_is_a_nonmatch_not_a_deny() {
    let bin = "/tmp/file-guard-engine";
    let eng = engine();
    let pinned = sha256(b"v1");
    let now = FileHashes { binary: Some(sha256(b"v1")), script: None };

    // Correct pin → matches.
    assert!(eng.identity_matches(&rule_for(bin, Some(pinned.clone())), &info_for(bin), &now));

    // Binary changed → the rule no longer matches, so evaluate() falls through to
    // a fresh prompt. This is a non-match (re-prompt), NOT a deny.
    let later = FileHashes { binary: Some(sha256(b"v2-longer")), script: None };
    assert!(!eng.identity_matches(&rule_for(bin, Some(pinned.clone())), &info_for(bin), &later));

    // A binary that cannot be hashed does not match a pin either.
    let unreadable = FileHashes { binary: None, script: None };
    assert!(!eng.identity_matches(&rule_for(bin, Some(pinned)), &info_for(bin), &unreadable));

    // Unpinned (legacy) rule matches on path alone.
    assert!(eng.identity_matches(&rule_for(bin, None), &info_for(bin), &later));
}

#[test]
fn script_content_change_is_a_nonmatch() {
    let bin = "/tmp/fg-interp";
    let script = "/tmp/fg-prog.py";
    let eng = engine();
    let bin_hash = sha256(b"interp");
    let script_hash = sha256(b"print('v1')");

    let mut info = info_for(bin);
    info.script = Some(path(script));

    let rule = |script_sha256: Option<String>| Rule {
        file: path("/f"),
        binary: path(bin),
        action: Action::Allow,
        access: Access::Read,
        sha256: Some(sha256(b"interp")),
        signature: None,
        script: Some(script.to_string()),
        script_sha256,
    };

    // Matching script content → matches.
    let now = hashes(Some(&bin_hash), Some(&script_hash));
    assert!(eng.identity_matches(&rule(Some(script_hash.clone())), &info, &now));

    // Edited in place at the same path → no match (re-prompt).
    let edited = sha256(b"print('v2-longer')");
    let later = hashes(Some(&bin_hash), Some(&edited));
    assert!(!eng.identity_matches(&rule(Some(script_hash.clone())), &info, &later));

    // No script pin → content is not checked (path pin still holds).
    assert!(eng.identity_matches(&rule(None), &info, &later));

    // Another script, or none, does not match the path pin.
    info.script = Some(path("/tmp/other.py"));
    assert!(!eng.identity_matches(&rule(None), &info, &later));
    info.script = None;
    assert!(!eng.identity_matches(&rule(None), &info, &later));
    assert!(!eng.identity_matches(&rule(Some(script_hash)), &info, &now));
}

#[test]
fn script_pins_count_without_a_binary_pin() {
    let mut rule = rule_for("/usr/bin/python3", None);
    rule.script = Some("/opt/a.py".to_string());
    let mut info = info_for("/usr/bin/python3");
    let none = hashes(None, None);
    assert!(!engine().identity_matches(&rule, &info, &none));
    info.script = Some(path("/opt/b.py"));
    assert!(!engine().identity_matches(&rule, &info, &none));
    info.script = Some(path("/opt/a.py"));
    assert!(engine().identity_matches(&rule, &info, &none));

    rule.script_sha256 = Some("k".to_string());
    assert!(!engine().identity_matches(&rule, &info, &none));
    assert!(!engine().identity_matches(&rule, &info, &hashes(None, Some("other"))));
    assert!(engine().identity_matches(&rule, &info, &hashes(None, Some("k"))));

    // The rule is still unpinned as far as the binary goes.
    let mut eng = engine();
    eng.add_persistent_rule(rule, true).unwrap();
    assert!(eng.hash_needs(&info, &path("/f"), Access::Read).script);
    let evaluation = eng.evaluate(&info, &path("/f"), Access::Read, &hashes(None, Some("k")));
    assert_eq!(evaluation.verdict, Verdict::Decided(Decision::AllowAlways));
    assert!(evaluation.warn_unpinned);
    let edited = eng.evaluate(&info, &path("/f"), Access::Read, &hashes(None, Some("other")));
    assert_eq!(edited.verdict, Verdict::Ask);
}

#[test]
fn signature_pins_count_on_macos_only() {
    let mut rule = rule_for("/bin/x", None);
    rule.signature = Some("com.example.x".to_string());
    let mut info = info_for("/bin/x");
    let none = hashes(None, None);

    let mac = engine_with(vec![], Platform::MacOs);
    assert!(!mac.identity_matches(&rule, &info, &none));
    info.code_signature = Some("com.example.y".to_string());
    assert!(!mac.identity_matches(&rule, &info, &none));
    info.code_signature = Some("com.example.x".to_string());
    assert!(mac.identity_matches(&rule, &info, &none));

    info.code_signature = None;
    assert!(engine().identity_matches(&rule, &info, &none));
}

#[test]
fn a_script_pin_that_is_not_utf8_is_compared_as_repaired_text() {
    let mut rule = rule_for("/bin/x", Some("h".to_string()));
    rule.script = Some("/tmp/\u{fffd}".to_string());
    let mut info = info_for("/bin/x");
    info.script = Some(FilePath::from_bytes(b"/tmp/\xff".to_vec()));
    assert!(engine().identity_matches(&rule, &info, &hashes(Some("h"), None)));
}

#[test]
fn the_first_applying_rule_decides() {
    let eng = engine_with(
        vec![
            entry("/f", "/bin/x", RuleAction::Deny, Access::Write),
            entry("/f", "/bin/x", RuleAction::Allow, Access::Any),
            entry("/f", "/bin/x", RuleAction::Deny, Access::Any),
        ],
        Platform::Linux,
    );
    let info = info_for("/bin/x");
    let none = hashes(None, None);
    assert_eq!(eng.lookup_rule(&info, &path("/f"), Access::Read, &none), Some(Action::Allow));
    assert_eq!(eng.lookup_rule(&info, &path("/f"), Access::Write, &none), Some(Action::Deny));
    // Paths are compared by their components.
    assert_eq!(eng.lookup_rule(&info, &path("//f/"), Access::Read, &none), Some(Action::Allow));
    assert_eq!(eng.lookup_rule(&info, &path("/g"), Access::Read, &none), None);
    assert_eq!(eng.lookup_rule(&info_for("/bin/y"), &path("/f"), Access::Read, &none), None);
}

#[test]
fn rule_files_are_expanded() {
    let eng = engine_with(
        vec![entry("~/.aws/credentials", "/bin/aws", RuleAction::Allow, Access::Read)],
        Platform::Linux,
    );
    let file = path("/home/a/.aws/credentials");
    let none = hashes(None, None);
    assert_eq!(
        eng.lookup_rule(&info_for("/bin/aws"), &file, Access::Read, &none),
        Some(Action::Allow)
    );
}

#[test]
fn rules_beat_session_grants() {
    let mut eng = engine_with(
        vec![entry("/f", "/bin/x", RuleAction::Deny, Access::Write)],
        Platform::Linux,
    );
    let info = info_for("/bin/x");
    let none = hashes(None, None);
    let resolution =
        eng.apply_choice(&info, &path("/f"), Access::Read, UserChoice::AllowSession, &none);
    assert_eq!(resolution.decision, Decision::AllowSession);
    assert!(resolution.new_rule.is_none());
    assert_eq!(
        eng.evaluate(&info, &path("/f"), Access::Write, &none).verdict,
        Verdict::Decided(Decision::DenyAlways)
    );
    assert_eq!(
        eng.evaluate(&info, &path("/f"), Access::Read, &none).verdict,
        Verdict::Decided(Decision::AllowSession)
    );
}

#[test]
fn session_grants_are_bound_to_the_process_instance() {
    let mut eng = engine();
    let mut info = info_for("/bin/x");
    let none = hashes(None, None);
    assert_eq!(eng.evaluate(&info, &path("/f"), Access::Read, &none).verdict, Verdict::Ask);
    eng.apply_choice(&info, &path("/f"), Access::Read, UserChoice::AllowSession, &none);
    for access in [Access::Read, Access::Write] {
        assert_eq!(
            eng.evaluate(&info, &path("/f"), access, &none).verdict,
            Verdict::Decided(Decision::AllowSession)
        );
    }
    assert_eq!(eng.evaluate(&info, &path("/g"), Access::Read, &none).verdict, Verdict::Ask);
    // A recycled pid does not inherit the grant.
    info.start_time = 2;
    assert_eq!(eng.evaluate(&info, &path("/f"), Access::Read, &none).verdict, Verdict::Ask);
}

#[test]
fn session_state_on_its_own() {
    let mut session = SessionState::new();
    let id = ProcessId { pid: 7, start_time: 9 };
    assert!(!session.is_session_allowed(&id, &path("/f"), Access::Read));
    session.grant_session(id, path("/f"), Access::Read);
    assert!(session.is_session_allowed(&id, &path("/f"), Access::Read));
    assert!(!session.is_session_allowed(&id, &path("/f"), Access::Write));
    let other = ProcessId { pid: 8, start_time: 9 };
    assert!(!session.is_session_allowed(&other, &path("/f"), Access::Read));
    assert_eq!(ProcessId::of(&info_for("/x")), ProcessId { pid: 1, start_time: 1 });
}

#[test]
fn permanent_choices_are_remembered_until_the_program_changes() {
    let mut eng = engine();
    let mut info = info_for("/usr/bin/python3");
    info.script = Some(path("/opt/gcloud.py"));
    let file = path("/f");
    let now = hashes(Some("b1"), Some("s1"));

    let resolution =
        eng.apply_choice(&info, &file, Access::Read, UserChoice::AllowAlways, &now);
    assert_eq!(resolution.decision, Decision::AllowAlways);
    let rule = resolution.new_rule.unwrap();
    assert_eq!(rule.action, Action::Allow);
    assert_eq!(rule.access, Access::Any);
    assert_eq!(rule.sha256.as_deref(), Some("b1"));
    assert_eq!(rule.script.as_deref(), Some("/opt/gcloud.py"));
    assert_eq!(rule.script_sha256.as_deref(), Some("s1"));
    assert_eq!(rule.signature, None);
    // Nothing is remembered before the rule has been saved.
    assert_eq!(eng.evaluate(&info, &file, Access::Read, &now).verdict, Verdict::Ask);
    eng.add_persistent_rule(rule, true).unwrap();

    // Another instance of the program, in the other direction.
    info.pid = 99;
    info.start_time = 100;
    assert_eq!(
        eng.evaluate(&info, &file, Access::Write, &now).verdict,
        Verdict::Decided(Decision::AllowAlways)
    );
    // The same paths, spelled otherwise.
    let mut spelled = info_for("/usr//bin/./python3");
    spelled.script = Some(path("/opt/gcloud.py"));
    assert_eq!(
        eng.evaluate(&spelled, &path("//f"), Access::Read, &now).verdict,
        Verdict::Decided(Decision::AllowAlways)
    );
    // A changed binary, changed script contents, another script: asked again.
    for changed in [
        hashes(Some("b2"), Some("s1")),
        hashes(Some("b1"), Some("s2")),
        hashes(None, Some("s1")),
    ] {
        assert_eq!(eng.evaluate(&info, &file, Access::Read, &changed).verdict, Verdict::Ask);
    }
    info.script = Some(path("/opt/other.py"));
    assert_eq!(eng.evaluate(&info, &file, Access::Read, &now).verdict, Verdict::Ask);
}

#[test]
fn deny_always_is_remembered() {
    let mut eng = engine();
    let info = info_for("/bin/x");
    let now = hashes(Some("h"), None);
    let resolution =
        eng.apply_choice(&info, &path("/f"), Access::Write, UserChoice::DenyAlways, &now);
    assert_eq!(resolution.decision, Decision::DenyAlways);
    eng.add_persistent_rule(resolution.new_rule.unwrap(), true).unwrap();
    assert_eq!(
        eng.evaluate(&info, &path("/f"), Access::Read, &now).verdict,
        Verdict::Decided(Decision::DenyAlways)
    );
}

#[test]
fn a_rule_that_could_not_be_saved_is_not_added() {
    let mut eng = engine();
    assert!(eng.add_persistent_rule(rule_for("/bin/x", None), false).is_err());
    assert_eq!(
        eng.evaluate(&info_for("/bin/x"), &path("/f"), Access::Read, &hashes(None, None)).verdict,
        Verdict::Ask
    );
}

#[test]
fn choices_for_once_leave_no_trace() {
    let mut eng = engine();
    let info = info_for("/bin/x");
    let none = hashes(None, None);
    for (choice, decision) in [
        (UserChoice::AllowOnce, Decision::AllowOnce),
        (UserChoice::DenyOnce, Decision::DenyOnce),
    ] {
        let resolution = eng.apply_choice(&info, &path("/f"), Access::Read, choice, &none);
        assert_eq!(resolution.decision, decision);
        assert!(resolution.new_rule.is_none());
        assert_eq!(eng.evaluate(&info, &path("/f"), Access::Read, &none).verdict, Verdict::Ask);
    }
}

#[test]
fn unknown_access_without_an_agent_is_denied() {
    let mut eng = engine();
    let info = info_for("/bin/x");
    let none = hashes(None, None);
    assert_eq!(eng.evaluate(&info, &path("/f"), Access::Read, &none).verdict, Verdict::Ask);
    for result in [Err(ExchangeError::Io), Ok(PromptOutcome::NoResponse)] {
        let choice = eng.prompter().prompt(result, eng.default_action());
        let resolution = eng.apply_choice(&info, &path("/f"), Access::Read, choice, &none);
        assert!(!resolution.decision.is_allowed());
    }
}

#[test]
fn unpinned_rules_are_warned_about_once() {
    let mut eng = engine_with(
        vec![
            entry("/f", "/bin/x", RuleAction::Allow, Access::Any),
            entry("/g", "/bin//x", RuleAction::Allow, Access::Any),
        ],
        Platform::Linux,
    );
    let info = info_for("/bin/x");
    let none = hashes(None, None);
    assert!(eng.evaluate(&info, &path("/f"), Access::Read, &none).warn_unpinned);
    assert!(!eng.evaluate(&info, &path("/f"), Access::Read, &none).warn_unpinned);
    assert!(!eng.evaluate(&info, &path("/g"), Access::Write, &none).warn_unpinned);
    assert!(eng.warn_unpinned_once(&path("/bin/y")));
    assert!(!eng.warn_unpinned_once(&path("/bin/./y")));
}

#[test]
fn only_pinned_files_need_hashing() {
    let mut pinned = entry("/f", "/bin/x", RuleAction::Allow, Access::Read);
    pinned.sha256 = Some("h".to_string());
    pinned.script = Some("/s".to_string());
    pinned.script_sha256 = Some("k".to_string());
    let eng = engine_with(
        vec![pinned, entry("/g", "/bin/x", RuleAction::Allow, Access::Any)],
        Platform::Linux,
    );
    let mut info = info_for("/bin/x");
    let needs = eng.hash_needs(&info, &path("/f"), Access::Read);
    assert!(needs.binary && !needs.script);
    info.script = Some(path("/s"));
    let needs = eng.hash_needs(&info, &path("/f"), Access::Read);
    assert!(needs.binary && needs.script);
    let needs = eng.hash_needs(&info, &path("/f"), Access::Write);
    assert!(!needs.binary && !needs.script);
    let needs = eng.hash_needs(&info, &path("/g"), Access::Read);
    assert!(!needs.binary && !needs.script);
}

#[test]
fn saved_rules_survive_a_restart() {
    let mut rule = rule_for("/bin/x", Some("h".to_string()));
    rule.access = Access::Any;
    rule.script = Some("/s.py".to_string());
    rule.script_sha256 = Some("k".to_string());
    let saved = rule.to_entry();
    assert_eq!(saved.file, "/f");
    assert_eq!(saved.binary, "/bin/x");
    assert_eq!(saved.action, RuleAction::Allow);
    let back = Rule::from_entry(&saved, &Some(path("/home/a")));
    assert_eq!(back.file, rule.file);
    assert_eq!(back.binary, rule.binary);
    assert_eq!(back.action, rule.action);
    assert_eq!(back.access, rule.access);
    assert_eq!(back.sha256, rule.sha256);
    assert_eq!(back.script, rule.script);
    assert_eq!(back.script_sha256, rule.script_sha256);

    let mut deny = rule_for("/bin/x", None);
    deny.action = Action::Deny;
    deny.file = FilePath::from_bytes(b"/\xff".to_vec());
    assert_eq!(deny.to_entry().action, RuleAction::Deny);
    assert_eq!(deny.to_entry().file, "/\u{fffd}");
}

#[test]
fn a_binary_that_cannot_be_hashed_gives_an_unpinned_rule() {
    let eng = engine();
    let mut info = info_for("/bin/x");
    info.code_signature = Some("sig".to_string());
    let rule =
        eng.persist_rule(&info, &path("/f"), Access::Any, Action::Deny, &hashes(None, Some("s")));
    assert_eq!(rule.action, Action::Deny);
    assert_eq!(rule.sha256, None);
    assert_eq!(rule.signature.as_deref(), Some("sig"));
    assert_eq!(rule.script, None);
    assert_eq!(rule.script_sha256, None);
}

fn deciding(eng: &mut PolicyEngine, hashed: FileHashes) -> (AccessCheck, CheckAction) {
    let (mut check, _) =
        AccessCheck::begin(eng, info_for("/bin/x"), path("/f"), Access::Read);
    let action = check.next(eng, CheckEvent::Hashed(hashed)).action;
    (check, action)
}

#[test]
fn a_check_of_a_known_access_is_decided_at_once() {
    let mut eng = engine_with(
        vec![entry("/f", "/bin/x", RuleAction::Deny, Access::Any)],
        Platform::Linux,
    );
    let (mut check, needs) =
        AccessCheck::begin(&eng, info_for("/bin/x"), path("/f"), Access::Read);
    assert!(!needs.binary && !needs.script);
    assert!(matches!(check.next(&mut eng, CheckEvent::Saved(true)).action, CheckAction::Ignore));
    let step = check.next(&mut eng, CheckEvent::Hashed(hashes(None, None)));
    assert!(step.warn_unpinned);
    assert!(matches!(step.action, CheckAction::Finish(Decision::DenyAlways)));
    let again = check.next(&mut eng, CheckEvent::Hashed(hashes(None, None)));
    assert!(matches!(again.action, CheckAction::Ignore));
    assert_eq!(check.process().pid, 1);
    assert_eq!(check.process().binary_name, "x");
    assert_eq!(check.into_process().binary_name, "x");
}

#[test]
fn a_check_of_an_unknown_access_asks() {
    let mut eng = engine();
    let (mut check, action) = deciding(&mut eng, hashes(None, None));
    assert!(matches!(action, CheckAction::Prompt));
    let answer = Ok(PromptOutcome::Decided(UserChoice::AllowSession));
    let step = check.next(&mut eng, CheckEvent::Answered(answer));
    assert!(matches!(step.action, CheckAction::Finish(Decision::AllowSession)));
    assert!(matches!(
        deciding(&mut eng, hashes(None, None)).1,
        CheckAction::Finish(Decision::AllowSession)
    ));
}

#[test]
fn a_check_without_an_answer_follows_the_default() {
    let mut eng = engine();
    let (mut check, _) = deciding(&mut eng, hashes(None, None));
    let step = check.next(&mut eng, CheckEvent::Answered(Err(ExchangeError::NoReply)));
    assert!(matches!(step.action, CheckAction::Finish(Decision::DenyOnce)));
    assert!(matches!(deciding(&mut eng, hashes(None, None)).1, CheckAction::Prompt));
}

#[test]
fn a_permanent_answer_is_pinned_and_saved() {
    for saved in [true, false] {
        let mut eng = engine();
        let (mut check, _) = deciding(&mut eng, hashes(Some("h"), None));
        let answer = Ok(PromptOutcome::Decided(UserChoice::AllowAlways));
        match check.next(&mut eng, CheckEvent::Answered(answer)).action {
            CheckAction::Hash(needs) => assert!(needs.binary && !needs.script),
            other => panic!("not hashed: {other:?}"),
        }
        match check.next(&mut eng, CheckEvent::Hashed(hashes(Some("h"), None))).action {
            CheckAction::Save(entry) => {
                assert_eq!(entry.file, "/f");
                assert_eq!(entry.binary, "/bin/x");
                assert_eq!(entry.access, Access::Any);
                assert_eq!(entry.sha256.as_deref(), Some("h"));
            }
            other => panic!("not saved: {other:?}"),
        }
        let step = check.next(&mut eng, CheckEvent::Saved(saved));
        assert!(matches!(step.action, CheckAction::Finish(Decision::AllowAlways)));
        let later = deciding(&mut eng, hashes(Some("h"), None)).1;
        if saved {
            assert!(matches!(later, CheckAction::Finish(Decision::AllowAlways)));
        } else {
            assert!(matches!(later, CheckAction::Prompt));
        }
    }
}
