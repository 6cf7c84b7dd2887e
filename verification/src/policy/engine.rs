//! Evaluation of an access against rules, session grants and the user.
use crate::config::{
    entry_views, expanded, expanded_entry, Config, DefaultAction, RuleAction, RuleEntry,
    RuleEntryView,
};
use crate::path::{
    components, contains_path, lists_path, opt_path, path_list, text_of_bytes, FilePath,
};
use crate::policy::rule::{rule_views, Access, Action, Decision, Rule, RuleView};
use crate::policy::session::{
    instance, law_grants_are_bound_to_the_instance, session_allows, GrantView, ProcessId,
    SessionState,
};
use crate::process::identify::{Caller, ProcessInfo};
use crate::prompt::client::{choice_after, ExchangeError, PromptClient};
use crate::prompt::protocol::PromptOutcome;
use crate::prompt::types::UserChoice;
use crate::text::{copy_opt, opt_text, starts_with};
use vstd::prelude::*;
use vstd::string::*;
use vstd::utf8::*;

verus! {

/// The system that the daemon runs on; only macOS has code signatures to check.
#[derive(Debug, Clone, Copy, PartialEq, Eq, Structural)]
pub enum Platform {
    Linux,
    MacOs,
}

/// The sha256 hashes of the caller's binary and, for an interpreter, of its
/// script, as far as the files could be hashed.
#[derive(Debug)]
pub struct FileHashes {
    pub binary: Option<String>,
    pub script: Option<String>,
}

/// The contents of [`FileHashes`].
pub ghost struct HashesView {
    pub binary: Option<Seq<char>>,
    pub script: Option<Seq<char>>,
}

impl View for FileHashes {
    type V = HashesView;

    open spec fn view(&self) -> HashesView {
        HashesView { binary: opt_text(self.binary), script: opt_text(self.script) }
    }
}

/// An access to decide.
pub ghost struct Query {
    pub caller: Caller,
    pub file: Seq<u8>,
    pub access: Access,
    pub hashes: HashesView,
    pub platform: Platform,
}

// ---------------------------------------------------------------------------
// Rules
// ---------------------------------------------------------------------------

/// A rule that pins neither the binary's contents nor its signature authorizes
/// whatever binary is at its path.
pub open spec fn is_unpinned(rule: RuleView) -> bool {
    rule.sha256 is None && rule.signature is None
}

/// Whether a rule's pinned identity is the caller's. Each pin that the rule
/// has must hold; a rule without any pin matches on path alone.
pub open spec fn identity_holds(rule: RuleView, q: Query) -> bool {
    &&& rule.sha256 is Some ==> q.hashes.binary == rule.sha256
    &&& rule.signature is Some && q.platform == Platform::MacOs ==> q.caller.signature
        == rule.signature
    &&& rule.script is Some ==> q.caller.script is Some && text_of_bytes(q.caller.script->0)
        == rule.script->0
    &&& rule.script_sha256 is Some ==> q.caller.script is Some && q.hashes.script
        == rule.script_sha256
}

/// Whether a rule is about this file, binary and direction.
pub open spec fn concerns(rule: RuleView, caller: Caller, file: Seq<u8>, access: Access) -> bool {
    &&& components(rule.file) == components(file)
    &&& components(rule.binary) == components(caller.binary)
    &&& rule.access.spec_covers(access)
}

/// Whether a rule decides the access.
pub open spec fn applies(rule: RuleView, q: Query) -> bool {
    concerns(rule, q.caller, q.file, q.access) && identity_holds(rule, q)
}

/// The first rule that decides the access.
pub open spec fn deciding_rule(rules: Seq<RuleView>, q: Query) -> Option<RuleView>
    decreases rules.len(),
{
    if rules.len() == 0 {
        None
    } else if applies(rules[0], q) {
        Some(rules[0])
    } else {
        deciding_rule(rules.skip(1), q)
    }
}

/// The rule that a permanent choice leaves behind: this binary, as it is now,
/// running this script, as it is now, may or may not access this file.
pub open spec fn pinned_rule(q: Query, access: Access, action: Action) -> RuleView {
    RuleView {
        file: q.file,
        binary: q.caller.binary,
        action,
        access,
        sha256: q.hashes.binary,
        signature: q.caller.signature,
        script: script_text(q.caller),
        script_sha256: match q.caller.script {
            Some(_) => q.hashes.script,
            None => None,
        },
    }
}

/// The rule that a configuration entry stands for.
pub open spec fn rule_of_entry(entry: RuleEntryView, home: Option<Seq<u8>>) -> RuleView {
    RuleView {
        file: expanded(entry.file, home),
        binary: encode_utf8(entry.binary),
        action: match entry.action {
            RuleAction::Allow => Action::Allow,
            RuleAction::Deny => Action::Deny,
        },
        access: entry.access,
        sha256: entry.sha256,
        signature: entry.signature,
        script: entry.script,
        script_sha256: entry.script_sha256,
    }
}

/// The configuration entry that a rule is saved as.
pub open spec fn entry_of_rule(rule: RuleView) -> RuleEntryView {
    RuleEntryView {
        file: text_of_bytes(rule.file),
        binary: text_of_bytes(rule.binary),
        action: match rule.action {
            Action::Allow => RuleAction::Allow,
            Action::Deny => RuleAction::Deny,
        },
        access: rule.access,
        sha256: rule.sha256,
        signature: rule.signature,
        script: rule.script,
        script_sha256: rule.script_sha256,
    }
}

impl Rule {
    /// The rule that a configuration entry stands for.
    pub fn from_entry(entry: &RuleEntry, home: &Option<FilePath>) -> (r: Rule)
        ensures
            r@ == rule_of_entry(entry@, opt_path(*home)),
    {
        Rule {
            file: Config::expand_path(entry.file.as_str(), home),
            binary: FilePath::from_text(entry.binary.as_str()),
            action: match entry.action {
                RuleAction::Allow => Action::Allow,
                RuleAction::Deny => Action::Deny,
            },
            access: entry.access,
            sha256: copy_opt(&entry.sha256),
            signature: copy_opt(&entry.signature),
            script: copy_opt(&entry.script),
            script_sha256: copy_opt(&entry.script_sha256),
        }
    }

    /// The configuration entry that the rule is saved as.
    pub fn to_entry(&self) -> (r: RuleEntry)
        ensures
            r@ == entry_of_rule(self@),
    {
        RuleEntry {
            file: self.file.to_text(),
            binary: self.binary.to_text(),
            action: match self.action {
                Action::Allow => RuleAction::Allow,
                Action::Deny => RuleAction::Deny,
            },
            access: self.access,
            sha256: copy_opt(&self.sha256),
            signature: copy_opt(&self.signature),
            script: copy_opt(&self.script),
            script_sha256: copy_opt(&self.script_sha256),
        }
    }
}

// ---------------------------------------------------------------------------
// The engine
// ---------------------------------------------------------------------------

/// The policy: persistent rules, this session's grants, and how to ask.
#[derive(Debug)]
pub struct PolicyEngine {
    rules: Vec<Rule>,
    session: SessionState,
    /// Binaries whose unpinned rule has been warned about.
    warned: Vec<FilePath>,
    prompter: PromptClient,
    /// What an access that nobody decides comes to.
    default_action: DefaultAction,
    platform: Platform,
}

/// The state of a [`PolicyEngine`].
pub ghost struct EngineView {
    pub rules: Seq<RuleView>,
    pub grants: Seq<GrantView>,
    pub warned: Seq<Seq<u8>>,
    pub prompter: PromptClient,
    pub default_action: DefaultAction,
    pub platform: Platform,
}

impl View for PolicyEngine {
    type V = EngineView;

    closed spec fn view(&self) -> EngineView {
        EngineView {
            rules: rule_views(self.rules@),
            grants: self.session@,
            warned: path_list(self.warned@),
            prompter: self.prompter,
            default_action: self.default_action,
            platform: self.platform,
        }
    }
}

/// What is known of an access before the user is asked.
#[derive(Debug, Clone, Copy, PartialEq, Eq, Structural)]
pub enum Verdict {
    /// It is decided.
    Decided(Decision),
    /// The user has to be asked.
    Ask,
}

/// The result of evaluating an access.
#[derive(Debug, Clone, Copy, PartialEq, Eq, Structural)]
pub struct Evaluation {
    pub verdict: Verdict,
    /// The deciding rule is unpinned, which has not been warned about yet.
    pub warn_unpinned: bool,
}

/// The result of the user's choice.
#[derive(Debug)]
pub struct Resolution {
    pub decision: Decision,
    /// The rule to save.
    pub new_rule: Option<Rule>,
}

/// Which files have to be hashed to evaluate an access.
#[derive(Debug, Clone, Copy, PartialEq, Eq, Structural)]
pub struct HashNeeds {
    pub binary: bool,
    pub script: bool,
}

/// A rule could not be written to the configuration file.
#[derive(Debug, Clone, Copy, PartialEq, Eq, Structural)]
pub struct NotPersisted;

/// What rules and session grants say of an access: the first rule that applies
/// decides; without one a session grant allows; otherwise the user is asked.
pub open spec fn verdict(e: EngineView, q: Query) -> Verdict {
    match deciding_rule(e.rules, q) {
        Some(rule) => Verdict::Decided(
            match rule.action {
                Action::Allow => Decision::AllowAlways,
                Action::Deny => Decision::DenyAlways,
            },
        ),
        None => if session_allows(e.grants, instance(q.caller), q.file, q.access) {
            Verdict::Decided(Decision::AllowSession)
        } else {
            Verdict::Ask
        },
    }
}

/// Whether the access is decided by an unpinned rule that was not warned about.
pub open spec fn warns_unpinned(e: EngineView, q: Query) -> bool {
    match deciding_rule(e.rules, q) {
        Some(rule) => is_unpinned(rule) && !lists_path(e.warned, rule.binary),
        None => false,
    }
}

/// The decision that a choice stands for.
pub open spec fn decision_for(choice: UserChoice) -> Decision {
    match choice {
        UserChoice::AllowOnce => Decision::AllowOnce,
        UserChoice::AllowSession => Decision::AllowSession,
        UserChoice::AllowAlways => Decision::AllowAlways,
        UserChoice::DenyOnce => Decision::DenyOnce,
        UserChoice::DenyAlways => Decision::DenyAlways,
    }
}

/// The rule that a choice leaves behind. A permanent choice covers both
/// directions, so that a tool which reads and writes a file is not prompted
/// once per direction.
pub open spec fn rule_for(choice: UserChoice, q: Query) -> Option<RuleView> {
    match choice {
        UserChoice::AllowAlways => Some(pinned_rule(q, Access::Any, Action::Allow)),
        UserChoice::DenyAlways => Some(pinned_rule(q, Access::Any, Action::Deny)),
        _ => None,
    }
}

/// The engine after a choice: one for the session leaves a grant behind, which
/// covers both directions.
pub open spec fn after_choice(e: EngineView, choice: UserChoice, q: Query) -> EngineView {
    if choice == UserChoice::AllowSession {
        EngineView {
            grants: e.grants.push(
                GrantView { process: instance(q.caller), file: q.file, access: Access::Any },
            ),
            ..e
        }
    } else {
        e
    }
}

/// The engine after a rule was saved.
pub open spec fn with_rule(e: EngineView, rule: RuleView) -> EngineView {
    EngineView { rules: e.rules.push(rule), ..e }
}

/// The engine after it has been noted that the rule for `binary` is unpinned.
pub open spec fn with_warning(e: EngineView, binary: Seq<u8>) -> EngineView {
    EngineView { warned: e.warned.push(binary), ..e }
}

/// The engine after an evaluation: nothing changes but the record of warnings.
pub open spec fn after_evaluation(e: EngineView, q: Query) -> EngineView {
    if warns_unpinned(e, q) {
        with_warning(e, deciding_rule(e.rules, q)->0.binary)
    } else {
        e
    }
}

/// Whether a rule for this access pins the binary's contents.
pub open spec fn pins_binary(rule: RuleView, caller: Caller, file: Seq<u8>, access: Access) -> bool {
    concerns(rule, caller, file, access) && rule.sha256 is Some
}

/// Whether a rule for this access pins the contents of the caller's script.
pub open spec fn pins_script(rule: RuleView, caller: Caller, file: Seq<u8>, access: Access) -> bool {
    &&& concerns(rule, caller, file, access)
    &&& rule.script_sha256 is Some
    &&& caller.script is Some
}

/// Whether some rule for this access pins the binary's contents.
pub open spec fn needs_binary_hash(
    rules: Seq<RuleView>,
    caller: Caller,
    file: Seq<u8>,
    access: Access,
) -> bool {
    exists|i: int| 0 <= i < rules.len() && #[trigger] pins_binary(rules[i], caller, file, access)
}

/// Whether some rule for this access pins the contents of the caller's script.
pub open spec fn needs_script_hash(
    rules: Seq<RuleView>,
    caller: Caller,
    file: Seq<u8>,
    access: Access,
) -> bool {
    exists|i: int| 0 <= i < rules.len() && #[trigger] pins_script(rules[i], caller, file, access)
}

proof fn lemma_first_rule_decides(rules: Seq<RuleView>, q: Query, k: int)
    requires
        0 <= k <= rules.len(),
        forall|j: int| 0 <= j < k ==> !applies(#[trigger] rules[j], q),
        k < rules.len() ==> applies(rules[k], q),
    ensures
        deciding_rule(rules, q) == (if k < rules.len() {
            Some(rules[k])
        } else {
            None
        }),
    decreases rules.len(),
{
    if k > 0 {
        assert(!applies(rules[0], q));
        assert forall|j: int| 0 <= j < k - 1 implies !applies(
            #[trigger] rules.skip(1)[j],
            q,
        ) by {
            assert(rules.skip(1)[j] == rules[j + 1]);
        }
        lemma_first_rule_decides(rules.skip(1), q, k - 1);
    }
}

impl PolicyEngine {
    /// The access that these arguments describe to this engine.
    pub open spec fn query(
        &self,
        process: &ProcessInfo,
        file: &FilePath,
        access: Access,
        hashes: &FileHashes,
    ) -> Query {
        Query {
            caller: process@,
            file: file@,
            access,
            hashes: hashes@,
            platform: self@.platform,
        }
    }

    /// An engine with the rules of `config` and no session grants.
    pub fn new(
        config: &Config,
        prompter: PromptClient,
        home: &Option<FilePath>,
        platform: Platform,
    ) -> (r: PolicyEngine)
        ensures
            r@.rules == entry_views(config.rule@).map_values(
                |e: RuleEntryView| rule_of_entry(e, opt_path(*home)),
            ),
            r@.grants == Seq::<GrantView>::empty(),
            r@.warned == Seq::<Seq<u8>>::empty(),
            r@.prompter == prompter,
            r@.default_action == config.settings.default_action,
            r@.platform == platform,
    {
        let mut rules: Vec<Rule> = Vec::new();
        let mut i: usize = 0;
        let ghost all = entry_views(config.rule@).map_values(
            |e: RuleEntryView| rule_of_entry(e, opt_path(*home)),
        );
        while i < config.rule.len()
            invariant
                i <= config.rule@.len(),
                all == entry_views(config.rule@).map_values(
                    |e: RuleEntryView| rule_of_entry(e, opt_path(*home)),
                ),
                rule_views(rules@) == all.take(i as int),
            decreases config.rule@.len() - i,
        {
            let rule = Rule::from_entry(&config.rule[i], home);
            let ghost before = rules@;
            rules.push(rule);
            assert(rule_views(rules@) =~= rule_views(before).push(rule@));
            i = i + 1;
            assert(rule_views(rules@) =~= all.take(i as int));
        }
        assert(all.take(i as int) =~= all);
        let engine = PolicyEngine {
            rules,
            session: SessionState::new(),
            warned: Vec::new(),
            prompter,
            default_action: config.settings.default_action,
            platform,
        };
        assert(engine@.warned =~= Seq::<Seq<u8>>::empty());
        engine
    }

    /// The client that asks the user.
    pub fn prompter(&self) -> (r: &PromptClient)
        ensures
            *r == self@.prompter,
    {
        &self.prompter
    }

    /// What an access that nobody decides comes to.
    pub fn default_action(&self) -> (r: DefaultAction)
        ensures
            r == self@.default_action,
    {
        self.default_action
    }

    /// Evaluate policy for a process accessing a watched file in a given
    /// direction, up to the point where the user has to be asked: persistent
    /// rules (identity-pinned) first, then the grants of this exact process
    /// instance.
    pub fn evaluate(
        &mut self,
        process: &ProcessInfo,
        watched_file: &FilePath,
        access: Access,
        hashes: &FileHashes,
    ) -> (r: Evaluation)
        ensures
            ({
                let q = old(self).query(process, watched_file, access, hashes);
                &&& r.verdict == verdict(old(self)@, q)
                &&& r.warn_unpinned == warns_unpinned(old(self)@, q)
                &&& final(self)@ == after_evaluation(old(self)@, q)
            }),
    {
        if let Some(i) = self.find_rule(process, watched_file, access, hashes) {
            let unpinned = self.rules[i].sha256.is_none() && self.rules[i].signature.is_none();
            let decision = match self.rules[i].action {
                Action::Allow => Decision::AllowAlways,
                Action::Deny => Decision::DenyAlways,
            };
            let mut warn_unpinned = false;
            if unpinned {
                let binary = self.rules[i].binary.clone();
                warn_unpinned = self.warn_unpinned_once(&binary);
            }
            return Evaluation { verdict: Verdict::Decided(decision), warn_unpinned };
        }
        let id = ProcessId::of(process);
        if self.session.is_session_allowed(&id, watched_file, access) {
            return Evaluation {
                verdict: Verdict::Decided(Decision::AllowSession),
                warn_unpinned: false,
            };
        }
        Evaluation { verdict: Verdict::Ask, warn_unpinned: false }
    }

    /// Apply the user's choice about an access that had to be asked about. A
    /// choice for the session is remembered here; a permanent choice gives the
    /// rule that has to be saved and handed to [`Self::add_persistent_rule`].
    pub fn apply_choice(
        &mut self,
        process: &ProcessInfo,
        watched_file: &FilePath,
        access: Access,
        choice: UserChoice,
        hashes: &FileHashes,
    ) -> (r: Resolution)
        ensures
            ({
                let q = old(self).query(process, watched_file, access, hashes);
                &&& r.decision == decision_for(choice)
                &&& match r.new_rule {
                    Some(rule) => rule_for(choice, q) == Some(rule@),
                    None => rule_for(choice, q) is None,
                }
                &&& final(self)@ == after_choice(old(self)@, choice, q)
            }),
    {
        match choice {
            UserChoice::AllowOnce => Resolution { decision: Decision::AllowOnce, new_rule: None },
            UserChoice::AllowAlways => Resolution {
                decision: Decision::AllowAlways,
                new_rule: Some(
                    self.persist_rule(process, watched_file, Access::Any, Action::Allow, hashes),
                ),
            },
            UserChoice::AllowSession => {
                self.session.grant_session(
                    ProcessId::of(process),
                    watched_file.clone(),
                    Access::Any,
                );
                Resolution { decision: Decision::AllowSession, new_rule: None }
            },
            UserChoice::DenyOnce => Resolution { decision: Decision::DenyOnce, new_rule: None },
            UserChoice::DenyAlways => Resolution {
                decision: Decision::DenyAlways,
                new_rule: Some(
                    self.persist_rule(process, watched_file, Access::Any, Action::Deny, hashes),
                ),
            },
        }
    }

    fn find_rule(
        &self,
        process: &ProcessInfo,
        file: &FilePath,
        req: Access,
        hashes: &FileHashes,
    ) -> (r: Option<usize>)
        ensures
            match r {
                Some(i) => i < self.rules@.len() && deciding_rule(
                    self@.rules,
                    self.query(process, file, req, hashes),
                ) == Some(self.rules@[i as int]@),
                None => deciding_rule(
                    self@.rules,
                    self.query(process, file, req, hashes),
                ) is None,
            },
    {
        let ghost q = self.query(process, file, req, hashes);
        let mut i: usize = 0;
        while i < self.rules.len()
            invariant
                i <= self.rules@.len(),
                q == self.query(process, file, req, hashes),
                self@.rules == rule_views(self.rules@),
                forall|j: int| 0 <= j < i ==> !applies(#[trigger] self@.rules[j], q),
            decreases self.rules@.len() - i,
        {
            let r = &self.rules[i];
            assert(self@.rules[i as int] == r@);
            if r.file.same_as(file) && r.binary.same_as(&process.binary_path) && r.access.covers(
                req,
            ) && self.identity_matches(r, process, hashes) {
                proof {
                    lemma_first_rule_decides(self@.rules, q, i as int);
                }
                return Some(i);
            }
            i = i + 1;
        }
        proof {
            lemma_first_rule_decides(self@.rules, q, i as int);
        }
        None
    }

    /// The action of the first rule that decides the access.
    pub fn lookup_rule(
        &self,
        process: &ProcessInfo,
        file: &FilePath,
        req: Access,
        hashes: &FileHashes,
    ) -> (r: Option<Action>)
        ensures
            r == match deciding_rule(self@.rules, self.query(process, file, req, hashes)) {
                Some(rule) => Some(rule.action),
                None => None,
            },
    {
        match self.find_rule(process, file, req, hashes) {
            Some(i) => Some(self.rules[i].action),
            None => None,
        }
    }

    /// Which files have to be hashed before [`Self::evaluate`] can tell whether
    /// the pins of the rules for this access hold.
    pub fn hash_needs(&self, process: &ProcessInfo, file: &FilePath, req: Access) -> (r: HashNeeds)
        ensures
            r.binary == needs_binary_hash(self@.rules, process@, file@, req),
            r.script == needs_script_hash(self@.rules, process@, file@, req),
    {
        let mut needs = HashNeeds { binary: false, script: false };
        let mut i: usize = 0;
        while i < self.rules.len()
            invariant
                i <= self.rules@.len(),
                self@.rules == rule_views(self.rules@),
                needs.binary == (exists|j: int|
                    0 <= j < i && #[trigger] pins_binary(self@.rules[j], process@, file@, req)),
                needs.script == (exists|j: int|
                    0 <= j < i && #[trigger] pins_script(self@.rules[j], process@, file@, req)),
            decreases self.rules@.len() - i,
        {
            let r = &self.rules[i];
            assert(self@.rules[i as int] == r@);
            let about = r.file.same_as(file) && r.binary.same_as(&process.binary_path)
                && r.access.covers(req);
            let binary = about && r.sha256.is_some();
            let script = about && r.script_sha256.is_some() && process.script.is_some();
            assert(binary == pins_binary(self@.rules[i as int], process@, file@, req));
            assert(script == pins_script(self@.rules[i as int], process@, file@, req));
            needs = HashNeeds { binary: needs.binary || binary, script: needs.script || script };
            i = i + 1;
        }
        needs
    }

    /// Whether a rule's pinned identity matches the calling process.
    ///
    /// A pin **mismatch is a non-match (re-prompt), not a deny** — so a
    /// legitimately rebuilt/upgraded binary re-authorizes interactively instead
    /// of being hard-blocked. A rule without any pin (legacy) matches on path alone.
    pub fn identity_matches(&self, rule: &Rule, process: &ProcessInfo, hashes: &FileHashes) -> (r:
        bool)
        ensures
            forall|q: Query|
                q.caller == process@ && q.hashes == hashes@ && q.platform == self@.platform ==> r
                    == #[trigger] identity_holds(rule@, q),
    {
        if let Some(expected) = &rule.sha256 {
            match &hashes.binary {
                Some(actual) => {
                    if !(*actual == *expected) {
                        return false;
                    }
                },
                None => return false,
            }
        }
        if self.platform == Platform::MacOs {
            if let Some(expected) = &rule.signature {
                match &process.code_signature {
                    Some(actual) => {
                        if !(*actual == *expected) {
                            return false;
                        }
                    },
                    None => return false,
                }
            }
        }
        // Interpreter rules also pin the script: the same interpreter running a
        // different (or undetermined) program does not match — it re-prompts.

        if let Some(expected) = &rule.script {
            match &process.script {
                Some(script) => {
                    if !(script.to_text() == *expected) {
                        return false;
                    }
                },
                None => return false,
            }
        }
        // ...and the script's contents, so an in-place edit at the same path
        // re-prompts (path-pinning alone misses this on mutable-path distros).

        if let Some(expected) = &rule.script_sha256 {
            if process.script.is_none() {
                return false;
            }
            match &hashes.script {
                Some(actual) => {
                    if !(*actual == *expected) {
                        return false;
                    }
                },
                None => return false,
            }
        }
        true
    }

    /// Capture a persistent rule from a prompt response, pinning the binary's
    /// current hash (and macOS signature) so a later change re-prompts, and for
    /// an interpreter the script by path and content hash. Where the binary
    /// could not be hashed the rule is unpinned.
    pub fn persist_rule(
        &self,
        process: &ProcessInfo,
        file: &FilePath,
        access: Access,
        action: Action,
        hashes: &FileHashes,
    ) -> (r: Rule)
        ensures
            r@ == pinned_rule(self.query(process, file, access, hashes), access, action),
    {
        Rule {
            file: file.clone(),
            binary: process.binary_path.clone(),
            action,
            access,
            sha256: copy_opt(&hashes.binary),
            signature: copy_opt(&process.code_signature),
            script: match &process.script {
                Some(s) => Some(s.to_text()),
                None => None,
            },
            script_sha256: match &process.script {
                Some(_) => copy_opt(&hashes.script),
                None => None,
            },
        }
    }

    /// Add a new persistent rule, once its entry has been appended to the
    /// configuration file. A rule that could not be written is not added.
    pub fn add_persistent_rule(&mut self, rule: Rule, written: bool) -> (r: Result<(), NotPersisted>)
        ensures
            r is Ok == written,
            final(self)@ == (if written {
                with_rule(old(self)@, rule@)
            } else {
                old(self)@
            }),
    {
        if !written {
            return Err(NotPersisted);
        }
        let ghost before = self.rules@;
        self.rules.push(rule);
        assert(rule_views(self.rules@) =~= rule_views(before).push(rule@));
        Ok(())
    }

    /// Whether to warn that a rule for `binary` isn't identity-pinned: once per
    /// binary path, so the log isn't spammed on the access hot path.
    pub fn warn_unpinned_once(&mut self, binary: &FilePath) -> (r: bool)
        ensures
            r == !lists_path(old(self)@.warned, binary@),
            final(self)@ == (if r {
                with_warning(old(self)@, binary@)
            } else {
                old(self)@
            }),
    {
        if contains_path(&self.warned, binary) {
            return false;
        }
        let ghost before = self.warned@;
        self.warned.push(binary.clone());
        assert(path_list(self.warned@) =~= path_list(before).push(binary@));
        true
    }
}

// ---------------------------------------------------------------------------
// Laws
// ---------------------------------------------------------------------------

/// The decision about an access: what rules and grants say, else the user.
pub open spec fn outcome(e: EngineView, q: Query, choice: UserChoice) -> Decision {
    match verdict(e, q) {
        Verdict::Decided(d) => d,
        Verdict::Ask => decision_for(choice),
    }
}

/// The engine after an access has been decided, with `choice` as the answer if
/// the user was asked, and with the rule that the choice leaves behind saved.
pub open spec fn settled(e: EngineView, q: Query, choice: UserChoice) -> EngineView {
    match verdict(e, q) {
        Verdict::Decided(_) => after_evaluation(e, q),
        Verdict::Ask => {
            let after = after_choice(e, choice, q);
            match rule_for(choice, q) {
                Some(rule) => with_rule(after, rule),
                None => after,
            }
        },
    }
}

/// Whether two accesses come from the same program as it is now: the same
/// binary with the same contents and signature, running the same script with
/// the same contents.
pub open spec fn same_program(p: Query, q: Query) -> bool {
    &&& components(p.caller.binary) == components(q.caller.binary)
    &&& script_text(p.caller) == script_text(q.caller)
    &&& p.caller.signature == q.caller.signature
    &&& p.hashes == q.hashes
    &&& p.platform == q.platform
}

/// The script that a caller runs, as a rule pins it.
pub open spec fn script_text(caller: Caller) -> Option<Seq<char>> {
    match caller.script {
        Some(script) => Some(text_of_bytes(script)),
        None => None,
    }
}

proof fn lemma_rule_pushed(rules: Seq<RuleView>, rule: RuleView, q: Query)
    ensures
        deciding_rule(rules.push(rule), q) == (if deciding_rule(rules, q) is Some {
            deciding_rule(rules, q)
        } else if applies(rule, q) {
            Some(rule)
        } else {
            None
        }),
    decreases rules.len(),
{
    let after = rules.push(rule);
    if rules.len() == 0 {
        assert(after.skip(1) =~= rules);
    } else {
        assert(after.skip(1) =~= rules.skip(1).push(rule));
        lemma_rule_pushed(rules.skip(1), rule, q);
    }
}

/// Rules are tried in order: the first one that applies decides, whatever
/// follows it and whatever the session and the user would say.
pub proof fn law_first_applying_rule_decides(e: EngineView, q: Query, k: int, choice: UserChoice)
    requires
        0 <= k < e.rules.len(),
        applies(e.rules[k], q),
        forall|j: int| 0 <= j < k ==> !applies(#[trigger] e.rules[j], q),
    ensures
        outcome(e, q, choice) == (match e.rules[k].action {
            Action::Allow => Decision::AllowAlways,
            Action::Deny => Decision::DenyAlways,
        }),
        outcome(e, q, choice).allows() == (e.rules[k].action == Action::Allow),
        settled(e, q, choice).rules == e.rules,
        settled(e, q, choice).grants == e.grants,
{
    lemma_first_rule_decides(e.rules, q, k);
}

/// A rule whose pins do not hold is passed over, never a denial: without it the
/// access is decided just the same.
pub proof fn law_mismatched_rules_are_passed_over(e: EngineView, q: Query, k: int)
    requires
        0 <= k < e.rules.len(),
        !identity_holds(e.rules[k], q),
    ensures
        verdict(e, q) == verdict(EngineView { rules: e.rules.remove(k), ..e }, q),
{
    lemma_passed_over(e.rules, q, k);
}

proof fn lemma_passed_over(rules: Seq<RuleView>, q: Query, k: int)
    requires
        0 <= k < rules.len(),
        !applies(rules[k], q),
    ensures
        deciding_rule(rules, q) == deciding_rule(rules.remove(k), q),
    decreases rules.len(),
{
    if k == 0 {
        assert(rules.remove(0) =~= rules.skip(1));
    } else {
        assert(rules.remove(k)[0] == rules[0]);
        assert(rules.remove(k).skip(1) =~= rules.skip(1).remove(k - 1));
        lemma_passed_over(rules.skip(1), q, k - 1);
    }
}

/// A rule that pins the binary's contents applies only to a binary with those
/// contents; one that pins a script, only to that script, and where its contents
/// are pinned too, only while it has them.
pub proof fn law_pins_are_exact(rule: RuleView, q: Query)
    requires
        applies(rule, q),
    ensures
        rule.sha256 is Some ==> q.hashes.binary == rule.sha256,
        rule.script is Some ==> q.caller.script is Some && text_of_bytes(
            q.caller.script->0,
        ) == rule.script->0,
        rule.script_sha256 is Some ==> q.caller.script is Some && q.hashes.script
            == rule.script_sha256,
        rule.signature is Some && q.platform == Platform::MacOs ==> q.caller.signature
            == rule.signature,
{
}

/// A permanent choice is remembered: every later access to the file, in either
/// direction, by any instance of the program and however the paths of both are
/// spelled, is decided the same way without asking, unless an earlier rule
/// decides it.
pub proof fn law_permanent_choices_are_remembered(
    e: EngineView,
    q: Query,
    choice: UserChoice,
    later: Query,
)
    requires
        verdict(e, q) == Verdict::Ask,
        choice == UserChoice::AllowAlways || choice == UserChoice::DenyAlways,
        same_program(q, later),
        components(later.file) == components(q.file),
        deciding_rule(e.rules, later) is None,
    ensures
        verdict(settled(e, q, choice), later) == Verdict::Decided(decision_for(choice)),
        decision_for(choice).allows() == (choice == UserChoice::AllowAlways),
{
    lemma_rule_pushed(e.rules, rule_for(choice, q)->0, later);
}

/// Once the binary, its signature, its script or the script's contents have
/// changed, a permanent choice that pinned them does not count: the access is
/// decided as if it had never been made.
pub proof fn law_changed_programs_are_asked_again(
    e: EngineView,
    q: Query,
    choice: UserChoice,
    later: Query,
)
    requires
        verdict(e, q) == Verdict::Ask,
        choice == UserChoice::AllowAlways || choice == UserChoice::DenyAlways,
        ({
            ||| q.hashes.binary is Some && later.hashes.binary != q.hashes.binary
            ||| q.caller.signature is Some && later.platform == Platform::MacOs
                && later.caller.signature != q.caller.signature
            ||| q.caller.script is Some && (later.caller.script is None || text_of_bytes(
                later.caller.script->0,
            ) != text_of_bytes(q.caller.script->0))
            ||| q.caller.script is Some && q.hashes.script is Some && later.hashes.script
                != q.hashes.script
        }),
    ensures
        verdict(settled(e, q, choice), later) == verdict(e, later),
{
    lemma_rule_pushed(e.rules, rule_for(choice, q)->0, later);
}

/// A grant for the session lets exactly this process instance access the file
/// in both directions, and no other instance: a process that reuses the pid has
/// another start time.
pub proof fn law_session_grants_follow_the_instance(e: EngineView, q: Query, later: Query)
    requires
        verdict(e, q) == Verdict::Ask,
        deciding_rule(e.rules, later) is None,
    ensures
        instance(later.caller) == instance(q.caller) && components(later.file) == components(q.file)
            ==> verdict(settled(e, q, UserChoice::AllowSession), later) == Verdict::Decided(
            Decision::AllowSession,
        ),
        instance(later.caller) != instance(q.caller) || components(later.file) != components(q.file)
            ==> verdict(settled(e, q, UserChoice::AllowSession), later) == verdict(e, later),
{
    let grant = GrantView { process: instance(q.caller), file: q.file, access: Access::Any };
    law_grants_are_bound_to_the_instance(
        e.grants,
        grant,
        instance(later.caller),
        later.file,
        later.access,
    );
}

/// An answer for once is given for this access alone: nothing is remembered.
pub proof fn law_answers_for_once_leave_no_trace(e: EngineView, q: Query, choice: UserChoice)
    requires
        verdict(e, q) == Verdict::Ask,
        choice == UserChoice::AllowOnce || choice == UserChoice::DenyOnce,
    ensures
        settled(e, q, choice) == e,
        outcome(e, q, choice).allows() == (choice == UserChoice::AllowOnce),
{
}

/// Where no rule and no grant allows an access and the agent brings no decision,
/// the default action stands: denied, unless the configuration says otherwise.
pub proof fn law_undecided_accesses_follow_the_default(
    e: EngineView,
    q: Query,
    result: Result<PromptOutcome, ExchangeError>,
)
    requires
        verdict(e, q) == Verdict::Ask,
        !(result matches Ok(PromptOutcome::Decided(_))),
    ensures
        outcome(e, q, choice_after(result, e.default_action)).allows() == (e.default_action
            == DefaultAction::Allow),
        settled(e, q, choice_after(result, e.default_action)) == e,
{
}

/// The hashes that [`PolicyEngine::hash_needs`] does not ask for have no
/// influence on the evaluation.
pub proof fn law_unneeded_hashes_do_not_matter(e: EngineView, q: Query, hashes: HashesView)
    requires
        needs_binary_hash(e.rules, q.caller, q.file, q.access) ==> hashes.binary == q.hashes.binary,
        needs_script_hash(e.rules, q.caller, q.file, q.access) ==> hashes.script == q.hashes.script,
    ensures
        verdict(e, Query { hashes, ..q }) == verdict(e, q),
        after_evaluation(e, Query { hashes, ..q }) == after_evaluation(e, q),
{
    let p = Query { hashes, ..q };
    assert forall|i: int| 0 <= i < e.rules.len() implies applies(#[trigger] e.rules[i], p)
        == applies(e.rules[i], q) by {
        assert(pins_binary(e.rules[i], q.caller, q.file, q.access) ==> needs_binary_hash(
            e.rules,
            q.caller,
            q.file,
            q.access,
        ));
        assert(pins_script(e.rules[i], q.caller, q.file, q.access) ==> needs_script_hash(
            e.rules,
            q.caller,
            q.file,
            q.access,
        ));
    }
    lemma_same_rule_decides(e.rules, p, q);
}

proof fn lemma_same_rule_decides(rules: Seq<RuleView>, p: Query, q: Query)
    requires
        forall|i: int|
            0 <= i < rules.len() ==> applies(#[trigger] rules[i], p) == applies(rules[i], q),
    ensures
        deciding_rule(rules, p) == deciding_rule(rules, q),
    decreases rules.len(),
{
    if rules.len() > 0 {
        assert(applies(rules[0], p) == applies(rules[0], q));
        assert forall|i: int| 0 <= i < rules.skip(1).len() implies applies(
            #[trigger] rules.skip(1)[i],
            p,
        ) == applies(rules.skip(1)[i], q) by {
            assert(rules.skip(1)[i] == rules[i + 1]);
        }
        lemma_same_rule_decides(rules.skip(1), p, q);
    }
}

/// A saved rule means the same after a restart: its entry in the configuration
/// file stands for the rule itself, also when its paths are expanded on loading.
/// This holds for paths, the script's included, that are text and not written
/// relative to a home directory.
pub proof fn law_saved_rules_survive_a_restart(rule: RuleView, home: Option<Seq<u8>>)
    requires
        valid_utf8(rule.file),
        valid_utf8(rule.binary),
        !starts_with(text_of_bytes(rule.file), "~/"@),
    ensures
        rule_of_entry(entry_of_rule(rule), home) == rule,
        !starts_with(text_of_bytes(rule.binary), "~/"@) && (rule.script is Some ==> !starts_with(
            rule.script->0,
            "~/"@,
        )) ==> rule_of_entry(
            expanded_entry(entry_of_rule(rule), home),
            home,
        ) == rule,
{
    decode_utf8_encode_utf8(rule.file);
    decode_utf8_encode_utf8(rule.binary);
    if let Some(script) = rule.script {
        encode_utf8_valid_utf8(script);
        encode_utf8_decode_utf8(script);
    }
}

/// An unpinned rule is warned about once per binary.
pub proof fn law_warnings_come_once(e: EngineView, q: Query, later: Query)
    requires
        warns_unpinned(e, q),
        deciding_rule(e.rules, later) is Some,
        components(deciding_rule(e.rules, later)->0.binary) == components(
            deciding_rule(e.rules, q)->0.binary,
        ),
    ensures
        !warns_unpinned(after_evaluation(e, q), later),
{
    let after = after_evaluation(e, q);
    assert(after.warned[e.warned.len() as int] == deciding_rule(e.rules, q)->0.binary);
}

/// Whether no binary is in the record of warnings twice.
pub open spec fn warned_once(warned: Seq<Seq<u8>>) -> bool {
    forall|i: int, j: int|
        0 <= i < j < warned.len() ==> components(#[trigger] warned[i]) != components(
            #[trigger] warned[j],
        )
}

/// The record of warnings holds no binary twice: it starts empty, evaluating an
/// access and noting a binary that is not in it keep it so, and nothing else
/// changes it.
pub proof fn law_warned_binaries_are_distinct(
    e: EngineView,
    q: Query,
    binary: Seq<u8>,
    choice: UserChoice,
    rule: RuleView,
)
    requires
        warned_once(e.warned),
    ensures
        warned_once(Seq::<Seq<u8>>::empty()),
        warned_once(after_evaluation(e, q).warned),
        !lists_path(e.warned, binary) ==> warned_once(with_warning(e, binary).warned),
        after_choice(e, choice, q).warned == e.warned,
        with_rule(e, rule).warned == e.warned,
{
    if warns_unpinned(e, q) {
        lemma_warning_is_new(e.warned, deciding_rule(e.rules, q)->0.binary);
    }
    if !lists_path(e.warned, binary) {
        lemma_warning_is_new(e.warned, binary);
    }
}

proof fn lemma_warning_is_new(warned: Seq<Seq<u8>>, binary: Seq<u8>)
    requires
        warned_once(warned),
        !lists_path(warned, binary),
    ensures
        warned_once(warned.push(binary)),
{
    let after = warned.push(binary);
    assert forall|i: int, j: int| 0 <= i < j < after.len() implies components(#[trigger] after[i])
        != components(#[trigger] after[j]) by {
        assert(after[i] == warned[i]);
    }
}

/// A rule decides nothing about any other file, any other binary or a direction
/// that it is not for, whatever it pins: without it the access is decided just
/// the same, and with the same warning.
pub proof fn law_rules_keep_to_their_file_and_binary(e: EngineView, q: Query, k: int)
    requires
        0 <= k < e.rules.len(),
        ({
            ||| components(e.rules[k].file) != components(q.file)
            ||| components(e.rules[k].binary) != components(q.caller.binary)
            ||| e.rules[k].access != Access::Any && e.rules[k].access != q.access
        }),
    ensures
        ({
            let without = EngineView { rules: e.rules.remove(k), ..e };
            &&& verdict(e, q) == verdict(without, q)
            &&& deciding_rule(e.rules, q) == deciding_rule(without.rules, q)
            &&& warns_unpinned(e, q) == warns_unpinned(without, q)
        }),
{
    lemma_passed_over(e.rules, q, k);
}

/// A permanent choice is about its file and its binary alone: an access to
/// another file, or by another binary, is decided as if it had not been made.
pub proof fn law_permanent_choices_stay_with_their_file(
    e: EngineView,
    q: Query,
    choice: UserChoice,
    later: Query,
)
    requires
        verdict(e, q) == Verdict::Ask,
        choice == UserChoice::AllowAlways || choice == UserChoice::DenyAlways,
        components(later.file) != components(q.file) || components(later.caller.binary)
            != components(q.caller.binary),
    ensures
        verdict(settled(e, q, choice), later) == verdict(e, later),
        deciding_rule(settled(e, q, choice).rules, later) == deciding_rule(e.rules, later),
{
    lemma_rule_pushed(e.rules, rule_for(choice, q)->0, later);
}

/// A rule about this file and this binary, for this direction or for any, and
/// with every pin that it has in place, decides the access if it comes first:
/// an allow rule allows it for good and a deny rule denies it for good, whatever
/// follows and whatever was granted.
pub proof fn law_fitting_rules_decide(e: EngineView, q: Query)
    requires
        e.rules.len() > 0,
        components(e.rules[0].file) == components(q.file),
        components(e.rules[0].binary) == components(q.caller.binary),
        e.rules[0].access == Access::Any || e.rules[0].access == q.access,
        e.rules[0].sha256 is None || e.rules[0].sha256 == q.hashes.binary,
        e.rules[0].signature is None || q.platform == Platform::Linux || e.rules[0].signature
            == q.caller.signature,
        e.rules[0].script is None || (q.caller.script is Some && text_of_bytes(q.caller.script->0)
            == e.rules[0].script->0),
        e.rules[0].script_sha256 is None || (q.caller.script is Some && e.rules[0].script_sha256
            == q.hashes.script),
    ensures
        deciding_rule(e.rules, q) == Some(e.rules[0]),
        e.rules[0].action == Action::Allow ==> verdict(e, q) == Verdict::Decided(
            Decision::AllowAlways,
        ),
        e.rules[0].action == Action::Deny ==> verdict(e, q) == Verdict::Decided(
            Decision::DenyAlways,
        ),
{
}

/// A pin that does not hold takes a rule out of the decision altogether.
pub proof fn law_broken_pins_take_a_rule_out(e: EngineView, q: Query, k: int)
    requires
        0 <= k < e.rules.len(),
        ({
            ||| e.rules[k].sha256 is Some && q.hashes.binary != e.rules[k].sha256
            ||| e.rules[k].signature is Some && q.platform == Platform::MacOs
                && q.caller.signature != e.rules[k].signature
            ||| e.rules[k].script is Some && (q.caller.script is None || text_of_bytes(
                q.caller.script->0,
            ) != e.rules[k].script->0)
            ||| e.rules[k].script_sha256 is Some && (q.caller.script is None || q.hashes.script
                != e.rules[k].script_sha256)
        }),
    ensures
        ({
            let without = EngineView { rules: e.rules.remove(k), ..e };
            &&& verdict(e, q) == verdict(without, q)
            &&& deciding_rule(e.rules, q) == deciding_rule(without.rules, q)
            &&& warns_unpinned(e, q) == warns_unpinned(without, q)
        }),
{
    lemma_passed_over(e.rules, q, k);
}

/// Without rules, an access is allowed for the session where it was granted, and
/// otherwise the user is asked.
pub proof fn law_without_rules_grants_decide(e: EngineView, q: Query)
    requires
        e.rules.len() == 0,
    ensures
        deciding_rule(e.rules, q) is None,
        !warns_unpinned(e, q),
        session_allows(e.grants, instance(q.caller), q.file, q.access) ==> verdict(e, q)
            == Verdict::Decided(Decision::AllowSession),
        !session_allows(e.grants, instance(q.caller), q.file, q.access) ==> verdict(e, q)
            == Verdict::Ask,
{
}

/// Each choice is carried out as it was made, and only those that allow let the
/// access go ahead.
pub proof fn law_choices_are_carried_out(choice: UserChoice)
    ensures
        choice == UserChoice::AllowOnce <==> decision_for(choice) == Decision::AllowOnce,
        choice == UserChoice::AllowSession <==> decision_for(choice) == Decision::AllowSession,
        choice == UserChoice::AllowAlways <==> decision_for(choice) == Decision::AllowAlways,
        choice == UserChoice::DenyOnce <==> decision_for(choice) == Decision::DenyOnce,
        choice == UserChoice::DenyAlways <==> decision_for(choice) == Decision::DenyAlways,
        decision_for(choice).allows() == (choice != UserChoice::DenyOnce && choice
            != UserChoice::DenyAlways),
{
}

/// Only a permanent choice leaves a rule behind. It is about the file and the
/// binary of the access, in both directions, and pins all that is known of the
/// program: the hash of the binary, its signature, and the script that it runs
/// with that script's hash.
pub proof fn law_permanent_choices_pin_the_program(choice: UserChoice, q: Query)
    ensures
        rule_for(choice, q) is Some <==> choice == UserChoice::AllowAlways || choice
            == UserChoice::DenyAlways,
        rule_for(choice, q) matches Some(rule) ==> {
            &&& rule.file == q.file
            &&& rule.binary == q.caller.binary
            &&& rule.access == Access::Any
            &&& rule.action == Action::Allow <==> choice == UserChoice::AllowAlways
            &&& rule.sha256 == q.hashes.binary
            &&& rule.signature == q.caller.signature
            &&& rule.script is Some == q.caller.script is Some
            &&& q.caller.script is Some ==> rule.script->0 == text_of_bytes(q.caller.script->0)
                && rule.script_sha256 == q.hashes.script
            &&& q.caller.script is None ==> rule.script_sha256 is None
        },
{
}

/// A rule that is captured for a direction is for that direction, and for the
/// action it was captured with; in all else it is the rule of a permanent choice.
pub proof fn law_captured_rules_keep_their_scope(q: Query, access: Access, action: Action)
    ensures
        pinned_rule(q, access, action).access == access,
        pinned_rule(q, access, action).action == action,
        rule_for(UserChoice::AllowAlways, q) == Some(
            (RuleView {
                access: Access::Any,
                action: Action::Allow,
                ..pinned_rule(q, access, action)
            }),
        ),
{
}

/// A choice for the session leaves one grant behind, for this process instance
/// and this file in both directions; no other choice changes the engine.
pub proof fn law_only_session_choices_leave_a_grant(e: EngineView, choice: UserChoice, q: Query)
    ensures
        choice != UserChoice::AllowSession ==> after_choice(e, choice, q) == e,
        choice == UserChoice::AllowSession ==> {
            let after = after_choice(e, choice, q);
            &&& after.grants.len() == e.grants.len() + 1
            &&& after.grants.drop_last() == e.grants
            &&& after.grants.last().process.pid == q.caller.pid
            &&& after.grants.last().process.start_time == q.caller.start_time
            &&& after.grants.last().file == q.file
            &&& after.grants.last().access == Access::Any
            &&& after == EngineView { grants: after.grants, ..e }
        },
{
    if choice == UserChoice::AllowSession {
        assert(after_choice(e, choice, q).grants.drop_last() =~= e.grants);
    }
}

/// A saved rule comes after all others, and nothing else changes.
pub proof fn law_saved_rules_come_last(e: EngineView, rule: RuleView)
    ensures
        with_rule(e, rule).rules.len() == e.rules.len() + 1,
        with_rule(e, rule).rules.last() == rule,
        with_rule(e, rule).rules.drop_last() == e.rules,
        with_rule(e, rule) == (EngineView { rules: with_rule(e, rule).rules, ..e }),
{
    assert(with_rule(e, rule).rules.drop_last() =~= e.rules);
}

/// A rule is warned about exactly if it decides the access, pins neither the
/// binary's contents nor a signature, and no rule of that binary was warned about
/// before. The warning is then on record, and nothing else changes.
pub proof fn law_unpinned_deciders_are_warned_about(e: EngineView, q: Query)
    ensures
        warns_unpinned(e, q) <==> {
            &&& deciding_rule(e.rules, q) is Some
            &&& deciding_rule(e.rules, q)->0.sha256 is None
            &&& deciding_rule(e.rules, q)->0.signature is None
            &&& forall|i: int|
                0 <= i < e.warned.len() ==> components(#[trigger] e.warned[i]) != components(
                    deciding_rule(e.rules, q)->0.binary,
                )
        },
        !warns_unpinned(e, q) ==> after_evaluation(e, q) == e,
        warns_unpinned(e, q) ==> {
            let after = after_evaluation(e, q);
            &&& after.warned.len() == e.warned.len() + 1
            &&& after.warned.drop_last() == e.warned
            &&& after.warned.last() == deciding_rule(e.rules, q)->0.binary
            &&& after == EngineView { warned: after.warned, ..e }
        },
{
    if warns_unpinned(e, q) {
        assert(after_evaluation(e, q).warned.drop_last() =~= e.warned);
    }
}

/// A file is hashed exactly if a rule about this file and binary, for this
/// direction or for any, pins its contents; a script only if the caller runs one.
pub proof fn law_pinned_contents_are_hashed(
    rules: Seq<RuleView>,
    rule: RuleView,
    caller: Caller,
    file: Seq<u8>,
    access: Access,
)
    ensures
        !needs_binary_hash(Seq::empty(), caller, file, access),
        !needs_script_hash(Seq::empty(), caller, file, access),
        ({
            let about = components(rule.file) == components(file) && components(rule.binary)
                == components(caller.binary) && (rule.access == Access::Any || rule.access
                == access);
            &&& needs_binary_hash(rules.push(rule), caller, file, access) == (needs_binary_hash(
                rules,
                caller,
                file,
                access,
            ) || (about && rule.sha256 is Some))
            &&& needs_script_hash(rules.push(rule), caller, file, access) == (needs_script_hash(
                rules,
                caller,
                file,
                access,
            ) || (about && rule.script_sha256 is Some && caller.script is Some))
        }),
{
    let after = rules.push(rule);
    let last = rules.len() as int;
    assert(after[last] == rule);
    if needs_binary_hash(rules, caller, file, access) {
        let i = choose|i: int|
            0 <= i < rules.len() && #[trigger] pins_binary(rules[i], caller, file, access);
        assert(pins_binary(after[i], caller, file, access));
    }
    if needs_binary_hash(after, caller, file, access) {
        let i = choose|i: int|
            0 <= i < after.len() && #[trigger] pins_binary(after[i], caller, file, access);
        if i < last {
            assert(pins_binary(rules[i], caller, file, access));
        }
    }
    assert(pins_binary(rule, caller, file, access) ==> pins_binary(
        after[last],
        caller,
        file,
        access,
    ));
    if needs_script_hash(rules, caller, file, access) {
        let i = choose|i: int|
            0 <= i < rules.len() && #[trigger] pins_script(rules[i], caller, file, access);
        assert(pins_script(after[i], caller, file, access));
    }
    if needs_script_hash(after, caller, file, access) {
        let i = choose|i: int|
            0 <= i < after.len() && #[trigger] pins_script(after[i], caller, file, access);
        if i < last {
            assert(pins_script(rules[i], caller, file, access));
        }
    }
    assert(pins_script(rule, caller, file, access) ==> pins_script(
        after[last],
        caller,
        file,
        access,
    ));
}

/// A rule and its entry in the configuration file agree in every field, each
/// under its own name.
pub proof fn law_entries_spell_the_rule_out(rule: RuleView, entry: RuleEntryView, home: Option<Seq<u8>>)
    ensures
        entry_of_rule(rule).file == text_of_bytes(rule.file),
        entry_of_rule(rule).binary == text_of_bytes(rule.binary),
        entry_of_rule(rule).action == RuleAction::Allow <==> rule.action == Action::Allow,
        entry_of_rule(rule).access == rule.access,
        entry_of_rule(rule).sha256 == rule.sha256,
        entry_of_rule(rule).signature == rule.signature,
        entry_of_rule(rule).script == rule.script,
        entry_of_rule(rule).script_sha256 == rule.script_sha256,
        rule_of_entry(entry, home).file == expanded(entry.file, home),
        rule_of_entry(entry, home).binary == encode_utf8(entry.binary),
        rule_of_entry(entry, home).action == Action::Allow <==> entry.action == RuleAction::Allow,
        rule_of_entry(entry, home).access == entry.access,
        rule_of_entry(entry, home).sha256 == entry.sha256,
        rule_of_entry(entry, home).signature == entry.signature,
        rule_of_entry(entry, home).script == entry.script,
        rule_of_entry(entry, home).script_sha256 == entry.script_sha256,
{
}

/// An access is put to the rules as it was asked about: by this caller, to this
/// file, in this direction, with these hashes.
pub proof fn law_accesses_are_evaluated_as_asked(
    engine: PolicyEngine,
    process: ProcessInfo,
    file: FilePath,
    access: Access,
    hashes: FileHashes,
)
    ensures
        ({
            let q = engine.query(&process, &file, access, &hashes);
            &&& q.caller == process@
            &&& q.file == file@
            &&& q.access == access
            &&& q.hashes.binary == opt_text(hashes.binary)
            &&& q.hashes.script == opt_text(hashes.script)
            &&& q.platform == engine@.platform
        }),
{
}

} // verus!
