use file_guard::cli::{added_rule, agent_method, list_rule, RuleAction, DEFAULT_LOG_LINES};
use file_guard::config::{self, PromptMethod};
use file_guard::path::FilePath;
use file_guard::policy::rule::Access;

#[test]
fn the_prompt_method_is_resolved_in_order() {
    let (t, g, n) = (PromptMethod::Terminal, PromptMethod::Gui, PromptMethod::Notification);
    assert_eq!(agent_method(Some(t), Some(n)), t);
    assert_eq!(agent_method(None, Some(n)), n);
    assert_eq!(agent_method(None, None), g);
    assert_eq!(DEFAULT_LOG_LINES, 50);
}

#[test]
fn rules_are_listed_in_columns() {
    let binary = FilePath::from_text("/usr/bin/aws");
    let file = || "~/.aws/credentials".to_string();
    let unpinned = added_rule(file(), &binary, RuleAction::Allow, Access::Any, None);
    assert_eq!(list_rule(0, &unpinned), "  0  allow access /usr/bin/aws  →  ~/.aws/credentials");
    let hash = Some("deadbeef".to_string());
    let pinned = added_rule(file(), &binary, RuleAction::Deny, Access::Read, hash);
    assert_eq!(
        list_rule(12, &pinned),
        " 12   deny read   /usr/bin/aws  →  ~/.aws/credentials (pinned)"
    );
    let mut script = added_rule(file(), &binary, RuleAction::Allow, Access::Write, None);
    script.script_sha256 = Some("k".to_string());
    assert_eq!(
        list_rule(1000, &script),
        "1000  allow write  /usr/bin/aws  →  ~/.aws/credentials (pinned)"
    );
    let mut signed = added_rule(file(), &binary, RuleAction::Allow, Access::Write, None);
    signed.signature = Some("s".to_string());
    assert!(!list_rule(0, &signed).ends_with("(pinned)"));
}

#[test]
fn added_rules_hold_what_was_asked_for() {
    let binary = FilePath::from_bytes(b"/bin/\xff".to_vec());
    let hash = Some("deadbeef".to_string());
    let rule = added_rule("/f".to_string(), &binary, RuleAction::Deny, Access::Write, hash);
    assert_eq!(rule.file, "/f");
    assert_eq!(rule.binary, "/bin/\u{fffd}");
    assert_eq!(rule.action, config::RuleAction::Deny);
    assert_eq!(rule.access, Access::Write);
    assert_eq!(rule.sha256.as_deref(), Some("deadbeef"));
    assert!(rule.signature.is_none() && rule.script.is_none() && rule.script_sha256.is_none());
}
