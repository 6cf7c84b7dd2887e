use file_guard::config::{
    access_is_read, agent_socket_path, check_rule_index, config_path, default_log_dest,
    default_timeout, pid_file_path, target_home, target_uid, Config, DefaultAction, PromptMethod,
    RemoveRuleError, RuleAction, RuleEntry, Settings, WatchEntry,
};
use file_guard::path::FilePath;
use file_guard::policy::rule::Access;

fn path(text: &str) -> FilePath {
    FilePath::from_text(text)
}

fn some(text: &str) -> Option<FilePath> {
    Some(path(text))
}

#[test]
fn expand_path_leaves_absolute_paths_untouched() {
    assert_eq!(
        Config::expand_path("/etc/file-guard/config.toml", &None),
        FilePath::from_text("/etc/file-guard/config.toml"),
    );
    assert_eq!(
        Config::expand_path("/etc/file-guard/config.toml", &some("/home/a")).as_bytes(),
        b"/etc/file-guard/config.toml",
    );
}

#[test]
fn a_leading_tilde_is_the_guarded_users_home() {
    let home = some("/home/a");
    assert_eq!(Config::expand_path("~/x/y", &home).as_bytes(), b"/home/a/x/y");
    assert_eq!(Config::expand_path("~/", &home).as_bytes(), b"/home/a/");
    assert_eq!(Config::expand_path("~/x", &some("/")).as_bytes(), b"/x");
    assert_eq!(Config::expand_path("~//x", &home).as_bytes(), b"/x");
    assert_eq!(Config::expand_path("~x", &home).as_bytes(), b"~x");
    assert_eq!(Config::expand_path("~", &home).as_bytes(), b"~");
    assert_eq!(Config::expand_path("~/x", &None).as_bytes(), b"~/x");
}

#[test]
fn watched_paths_are_expanded_in_order() {
    let config = Config {
        settings: Settings {
            default_action: DefaultAction::default(),
            prompt_timeout: default_timeout(),
            prompt_method: PromptMethod::default(),
            restore_on_stop: false,
            log_destination: default_log_dest(),
        },
        watch: vec![
            WatchEntry { path: "~/.aws/credentials".to_string(), default_action: None },
            WatchEntry { path: "/etc/key".to_string(), default_action: None },
        ],
        rule: vec![],
    };
    assert_eq!(
        config.watched_paths(&some("/home/a")),
        vec![path("/home/a/.aws/credentials"), path("/etc/key")]
    );
    assert_eq!(config.settings.default_action, DefaultAction::Deny);
    assert_eq!(config.settings.prompt_timeout, 30);
    assert_eq!(config.settings.prompt_method, PromptMethod::Terminal);
    assert_eq!(config.settings.log_destination, "stdout");
    assert!(access_is_read(&Access::Read));
    assert!(!access_is_read(&Access::Any));
}

#[test]
fn all_paths_are_expanded_on_load() {
    let config = |home: &Option<FilePath>| {
        Config {
            settings: Settings {
                default_action: DefaultAction::Allow,
                prompt_timeout: 7,
                prompt_method: PromptMethod::Gui,
                restore_on_stop: true,
                log_destination: "~/fg.log".to_string(),
            },
            watch: vec![WatchEntry {
                path: "~/.aws/credentials".to_string(),
                default_action: Some(DefaultAction::Allow),
            }],
            rule: vec![RuleEntry {
                file: "~/.aws/credentials".to_string(),
                binary: "/bin/aws".to_string(),
                action: RuleAction::Deny,
                access: Access::Write,
                sha256: Some("h".to_string()),
                signature: None,
                script: Some("~/s.py".to_string()),
                script_sha256: None,
            }],
        }
        .expand_paths(home)
    };
    let loaded = config(&some("/home/a"));
    assert_eq!(loaded.settings.log_destination, "/home/a/fg.log");
    assert_eq!(loaded.settings.prompt_timeout, 7);
    assert_eq!(loaded.settings.default_action, DefaultAction::Allow);
    assert_eq!(loaded.settings.prompt_method, PromptMethod::Gui);
    assert!(loaded.settings.restore_on_stop);
    assert_eq!(loaded.watch.len(), 1);
    assert_eq!(loaded.watch[0].path, "/home/a/.aws/credentials");
    assert_eq!(loaded.watch[0].default_action, Some(DefaultAction::Allow));
    assert_eq!(loaded.rule.len(), 1);
    let rule = &loaded.rule[0];
    assert_eq!((rule.file.as_str(), rule.binary.as_str()), ("/home/a/.aws/credentials", "/bin/aws"));
    assert_eq!((rule.action, rule.access), (RuleAction::Deny, Access::Write));
    assert_eq!((rule.sha256.as_deref(), rule.script.as_deref()), (Some("h"), Some("/home/a/s.py")));
    // Without a home, or with one that is no text, paths stay as they are.
    assert_eq!(config(&None).rule[0].script.as_deref(), Some("~/s.py"));
    assert_eq!(config(&None).watch[0].path, "~/.aws/credentials");
    let odd = Some(FilePath::from_bytes(b"/home/\xff".to_vec()));
    assert_eq!(config(&odd).watch[0].path, "~/.aws/credentials");
    assert_eq!(
        config(&odd).watched_paths(&odd)[0].as_bytes(),
        b"/home/\xff/.aws/credentials"
    );
}

const FILE: &str = "# my config
[settings]
default_action = \"deny\" # keep

[[watch]]
path = \"/f\"

# first
[[rule]]
file = \"/f\"
binary = \"/bin/a\"
action = \"allow\"

# second
[[rule]]
file = \"/g\"
binary = \"/bin/b\"
action = \"deny\"
";

#[test]
fn a_removed_rule_leaves_the_rest_as_it_was() {
    let removed = Config::remove_rule_at(FILE, 0).unwrap();
    assert_eq!((removed.binary.as_str(), removed.file.as_str()), ("/bin/a", "/f"));
    assert_eq!(
        removed.contents,
        "# my config
[settings]
default_action = \"deny\" # keep

[[watch]]
path = \"/f\"

# second
[[rule]]
file = \"/g\"
binary = \"/bin/b\"
action = \"deny\"
"
    );
    let again = Config::remove_rule_at(&removed.contents, 0).unwrap();
    assert_eq!((again.binary.as_str(), again.file.as_str()), ("/bin/b", "/g"));
    assert!(again.contents.contains("# keep"));
    assert!(!again.contents.contains("[[rule]]"));
    assert!(matches!(
        Config::remove_rule_at(&again.contents, 0),
        Err(RemoveRuleError::NoRules)
    ));
}

#[test]
fn the_remaining_rules_keep_their_comments_and_layout() {
    let file = "[[rule]]\nfile = \"/f\"\n\n# why\n[[rule]]   # note\n  file   =  '/g'  # here\n\
                n = 3\n[rule.more]\nx = [1,2]\n\n[[rule]]\nfile = \"/h\"\n";
    let removed = Config::remove_rule_at(file, 0).unwrap();
    assert!(removed.contents.contains(
        "# why\n[[rule]]   # note\n  file   =  '/g'  # here\nn = 3\n[rule.more]\nx = [1,2]\n"
    ));
    assert_eq!(removed.file, "/f");
    let next = Config::remove_rule_at(&removed.contents, 1).unwrap();
    assert_eq!(next.file, "/h");
    assert_eq!(Config::remove_rule_at(&next.contents, 0).unwrap().file, "/g");
}

#[test]
fn rules_that_cannot_be_removed() {
    assert!(matches!(
        Config::remove_rule_at(FILE, 2),
        Err(RemoveRuleError::OutOfRange { index: 2, count: 2 })
    ));
    assert!(matches!(
        Config::remove_rule_at("[settings]\n", 0),
        Err(RemoveRuleError::NoRules)
    ));
    assert!(matches!(
        Config::remove_rule_at("rule = 3\n", 0),
        Err(RemoveRuleError::NoRules)
    ));
    assert!(matches!(
        Config::remove_rule_at("[settings\n", 0),
        Err(RemoveRuleError::Malformed(_))
    ));
    let unnamed = Config::remove_rule_at("[[rule]]\nbinary = 3\n", 0).unwrap();
    assert_eq!((unnamed.binary.as_str(), unnamed.file.as_str()), ("?", "?"));
}

#[test]
fn rule_indices_are_checked() {
    assert!(matches!(check_rule_index(None, 0), Err(RemoveRuleError::NoRules)));
    assert!(check_rule_index(Some(3), 2).is_ok());
    assert!(matches!(
        check_rule_index(Some(3), 3),
        Err(RemoveRuleError::OutOfRange { index: 3, count: 3 })
    ));
}

#[test]
fn an_appended_rule_is_the_last_one() {
    let block = Config::append_rule("file = \"/h\"\nbinary = \"/bin/c\"\n");
    assert_eq!(block, "\n[[rule]]\nfile = \"/h\"\nbinary = \"/bin/c\"\n");
    let longer = format!("{FILE}{block}");
    let removed = Config::remove_rule_at(&longer, 2).unwrap();
    assert_eq!((removed.binary.as_str(), removed.file.as_str()), ("/bin/c", "/h"));
    assert_eq!(removed.contents, FILE);
}

#[test]
fn the_guarded_user_is_found_in_order() {
    assert_eq!(target_home(some("/a"), some("/b"), some("/c")), some("/a"));
    assert_eq!(target_home(None, some("/b"), some("/c")), some("/b"));
    assert_eq!(target_home(None, None, some("/c")), some("/c"));
    assert_eq!(target_home(None, None, None), None);
    assert_eq!(target_uid(Some(1), Some(2), 3), 1);
    assert_eq!(target_uid(None, Some(2), 3), 2);
    assert_eq!(target_uid(None, None, 3), 3);
}

#[test]
fn the_configuration_file_is_found_in_order() {
    let home = some("/home/a");
    assert_eq!(config_path(some("/x"), &home, some("/c")).as_bytes(), b"/x");
    assert_eq!(
        config_path(None, &home, some("/c")).as_bytes(),
        b"/home/a/.config/file-guard/config.toml"
    );
    assert_eq!(config_path(None, &None, some("/c")).as_bytes(), b"/c/file-guard/config.toml");
    assert_eq!(
        config_path(None, &None, None).as_bytes(),
        b"~/.config/file-guard/config.toml"
    );
}

#[test]
fn the_pid_file_is_found_in_order() {
    assert_eq!(pid_file_path(some("/p"), 0, some("/r"), 5).as_bytes(), b"/p");
    assert_eq!(
        pid_file_path(None, 0, some("/r"), 5).as_bytes(),
        b"/run/file-guard/daemon.pid"
    );
    assert_eq!(
        pid_file_path(None, 5, some("/r"), 5).as_bytes(),
        b"/r/file-guard/daemon.pid"
    );
    assert_eq!(
        pid_file_path(None, 5, None, 1000).as_bytes(),
        b"/run/user/1000/file-guard/daemon.pid"
    );
}

#[test]
fn daemon_and_agent_find_the_same_socket() {
    assert_eq!(agent_socket_path(some("/s"), 0, 1000, None, 0).as_bytes(), b"/s");
    let daemon = agent_socket_path(None, 0, 1000, some("/run/user/0"), 0);
    assert_eq!(daemon.as_bytes(), b"/run/user/1000/file-guard-agent.sock");
    let agent = agent_socket_path(None, 1000, 1000, some("/run/user/1000"), 1000);
    assert_eq!(agent.as_bytes(), daemon.as_bytes());
    let bare = agent_socket_path(None, 1000, 1000, None, 1000);
    assert_eq!(bare.as_bytes(), daemon.as_bytes());
    // Where root itself is guarded.
    let daemon = agent_socket_path(None, 0, 0, None, 0);
    let agent = agent_socket_path(None, 0, 0, some("/run/user/0"), 0);
    assert_eq!(agent.as_bytes(), daemon.as_bytes());
    assert_eq!(agent.as_bytes(), b"/run/user/0/file-guard-agent.sock");
}
