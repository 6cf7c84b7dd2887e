//! The command line: what can be asked for, and what the rule commands show and
//! add.
use crate::config::{self, PromptMethod, RuleEntry, RuleEntryView};
use crate::path::{text_of_bytes, FilePath};
use crate::policy::rule::Access;
use crate::text::{
    decimal, decimal_string, opt_text, pad_left, pad_right, padded_left, padded_right,
};
use vstd::prelude::*;
use vstd::string::*;

verus! {

/// A command line.
#[derive(Debug)]
pub struct Cli {
    pub command: Command,
}

/// A command.
#[derive(Debug)]
pub enum Command {
    /// Start the daemon (runs in the foreground; let systemd supervise it).
    Start {
        /// No-op: file-guard is supervised by systemd, not self-daemonizing.
        daemon: bool,
    },
    /// Run the user-session prompt agent. Renders access prompts for the root
    /// daemon, which connects over a unix socket.
    Agent {
        /// Socket to listen on.
        socket: Option<FilePath>,
        /// How to render prompts. Defaults to the config's prompt_method, else
        /// gui.
        method: Option<PromptMethod>,
    },
    /// Stop the running daemon.
    Stop,
    /// Show daemon state, watched files, mount status, and recent access.
    Status,
    /// Print (and optionally follow) the structured audit log.
    Log {
        /// Number of trailing entries to print.
        lines: usize,
        /// Keep printing new entries as they are appended.
        follow: bool,
    },
    /// Manage access rules.
    Rules { action: Option<RulesAction> },
    /// Move a credential file into the backing store.
    Store { file: FilePath },
    /// Restore a file from the backing store to disk.
    Restore { file: FilePath },
}

/// A command about rules.
#[derive(Debug)]
pub enum RulesAction {
    /// Add a persistent rule. The binary is pinned by its current sha256 so a
    /// later change re-prompts, unless `no_pin` is given.
    Add {
        /// Watched file the rule applies to.
        file: String,
        /// Absolute path of the binary to authorize.
        binary: FilePath,
        /// Allow or deny.
        action: RuleAction,
        /// Direction the rule covers.
        access: Access,
        /// Don't pin the binary's hash (match on path only).
        no_pin: bool,
    },
    /// Remove the rule at `index` (as shown by the listing).
    Remove { index: usize },
}

/// Allow or deny.
#[derive(Debug, Clone, Copy, PartialEq, Eq, Structural)]
pub enum RuleAction {
    Allow,
    Deny,
}

/// The number of entries that `log` prints when none is given.
pub const DEFAULT_LOG_LINES: usize = 50;

/// How the agent renders prompts: the command line's choice, else the
/// configuration's if it could be loaded, else the GUI.
pub fn agent_method(flag: Option<PromptMethod>, configured: Option<PromptMethod>) -> (r:
    PromptMethod)
    ensures
        Some(r) == config::first_of(flag, configured, Some(PromptMethod::Gui)),
{
    match flag {
        Some(m) => m,
        None => match configured {
            Some(m) => m,
            None => PromptMethod::Gui,
        },
    }
}

/// The word for a rule's action.
pub open spec fn action_word(action: config::RuleAction) -> Seq<char> {
    match action {
        config::RuleAction::Allow => "allow"@,
        config::RuleAction::Deny => "deny"@,
    }
}

/// Whether a listing shows a rule as pinned.
pub open spec fn shown_pinned(rule: RuleEntryView) -> bool {
    rule.sha256 is Some || rule.script_sha256 is Some
}

/// The line of a listing for the rule at `index`.
pub open spec fn rule_line(index: nat, rule: RuleEntryView) -> Seq<char> {
    pad_left(decimal(index), 3) + "  "@ + pad_left(action_word(rule.action), 5) + " "@ + pad_right(
        rule.access.spec_verb(),
        6,
    ) + " "@ + rule.binary + "  →  "@ + rule.file + (if shown_pinned(rule) {
        " (pinned)"@
    } else {
        ""@
    })
}

/// Lists the rule at `index`.
pub fn list_rule(index: usize, rule: &RuleEntry) -> (s: String)
    ensures
        s@ == rule_line(index as nat, rule@),
{
    let action = match rule.action {
        config::RuleAction::Allow => "allow",
        config::RuleAction::Deny => "deny",
    };
    let pinned = if rule.sha256.is_some() || rule.script_sha256.is_some() {
        " (pinned)"
    } else {
        ""
    };
    padded_left(decimal_string(index as u64).as_str(), 3).concat("  ").concat(
        padded_left(action, 5).as_str(),
    ).concat(" ").concat(padded_right(rule.access.verb(), 6).as_str()).concat(" ").concat(
        rule.binary.as_str(),
    ).concat("  →  ").concat(rule.file.as_str()).concat(pinned)
}

/// The entry for a rule added on the command line, with the binary's hash unless
/// it is not to be pinned.
pub fn added_rule(
    file: String,
    binary: &FilePath,
    action: RuleAction,
    access: Access,
    sha256: Option<String>,
) -> (r: RuleEntry)
    ensures
        r@ == (RuleEntryView {
            file: file@,
            binary: text_of_bytes(binary@),
            action: match action {
                RuleAction::Allow => config::RuleAction::Allow,
                RuleAction::Deny => config::RuleAction::Deny,
            },
            access,
            sha256: opt_text(sha256),
            signature: None,
            script: None,
            script_sha256: None,
        }),
{
    RuleEntry {
        file,
        binary: binary.to_text(),
        action: match action {
            RuleAction::Allow => config::RuleAction::Allow,
            RuleAction::Deny => config::RuleAction::Deny,
        },
        access,
        sha256,
        signature: None,
        script: None,
        script_sha256: None,
    }
}

/// The line of a rule shows its number, its action and its direction, each in a
/// field of its own, then its binary and its file in full. It says that the rule
/// is pinned if and only if a hash of the binary or of a script is.
pub proof fn law_listings_show_the_rule(index: nat, rule: RuleEntryView)
    ensures
        ({
            let line = rule_line(index, rule);
            let number = pad_left(decimal(index), 3);
            let head = number + "  "@ + pad_left(
                if rule.action == config::RuleAction::Allow {
                    "allow"@
                } else {
                    "deny"@
                },
                5,
            ) + " "@ + pad_right(
                match rule.access {
                    Access::Read => "read"@,
                    Access::Write => "write"@,
                    Access::Any => "access"@,
                },
                6,
            ) + " "@;
            let body = rule.binary + "  →  "@ + rule.file;
            &&& rule.sha256 is Some || rule.script_sha256 is Some ==> line == head + body
                + " (pinned)"@
            &&& rule.sha256 is None && rule.script_sha256 is None ==> line == head + body
        }),
{
    reveal_strlit("");
    let line = rule_line(index, rule);
    let head = pad_left(decimal(index), 3) + "  "@ + pad_left(action_word(rule.action), 5) + " "@
        + pad_right(rule.access.spec_verb(), 6) + " "@;
    let body = rule.binary + "  →  "@ + rule.file;
    if shown_pinned(rule) {
        assert(line =~= head + body + " (pinned)"@);
    } else {
        assert(line =~= head + body);
    }
}

} // verus!
