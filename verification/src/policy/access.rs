//! Deciding one access from beginning to end: hashing, evaluating, asking the
//! user, and saving the rule that a permanent answer leaves behind.
use crate::config::{DefaultAction, RuleEntry, RuleEntryView};
use crate::path::FilePath;
use crate::policy::engine::{
    after_choice, after_evaluation, decision_for, entry_of_rule, needs_binary_hash,
    needs_script_hash, outcome, rule_for, settled, verdict, with_rule, EngineView, FileHashes,
    HashNeeds, HashesView, PolicyEngine, Query, Verdict,
};
use crate::policy::rule::{Access, Decision, Rule, RuleView};
use crate::process::identify::ProcessInfo;
use crate::prompt::client::{choice_after, ExchangeError};
use crate::prompt::protocol::PromptOutcome;
use crate::prompt::types::UserChoice;
use vstd::prelude::*;

verus! {

/// What a check waits for.
#[derive(Debug)]
enum Stage {
    /// The hashes that the rules need.
    Evaluating,
    /// The user's answer.
    Asking,
    /// The hashes that the rule for this choice pins.
    Pinning(UserChoice),
    /// Whether this rule could be saved.
    Saving(Rule, Decision),
    /// Nothing: the access is decided.
    Done,
}

/// What a check waits for.
pub ghost enum StageView {
    Evaluating,
    Asking,
    Pinning(UserChoice),
    Saving(RuleView, Decision),
    Done,
}

impl View for Stage {
    type V = StageView;

    closed spec fn view(&self) -> StageView {
        match *self {
            Stage::Evaluating => StageView::Evaluating,
            Stage::Asking => StageView::Asking,
            Stage::Pinning(choice) => StageView::Pinning(choice),
            Stage::Saving(rule, decision) => StageView::Saving(rule@, decision),
            Stage::Done => StageView::Done,
        }
    }
}

/// What came of the last action.
#[derive(Debug)]
pub enum CheckEvent {
    /// The files that were asked for have been hashed, as far as possible.
    Hashed(FileHashes),
    /// The agent was asked.
    Answered(Result<PromptOutcome, ExchangeError>),
    /// The rule was saved, or not.
    Saved(bool),
}

/// The contents of a [`CheckEvent`].
pub ghost enum CheckEventView {
    Hashed(HashesView),
    Answered(Result<PromptOutcome, ExchangeError>),
    Saved(bool),
}

impl View for CheckEvent {
    type V = CheckEventView;

    open spec fn view(&self) -> CheckEventView {
        match *self {
            CheckEvent::Hashed(h) => CheckEventView::Hashed(h@),
            CheckEvent::Answered(r) => CheckEventView::Answered(r),
            CheckEvent::Saved(ok) => CheckEventView::Saved(ok),
        }
    }
}

/// What to do next.
#[derive(Debug)]
pub enum CheckAction {
    /// Hash these of the caller's files.
    Hash(HashNeeds),
    /// Ask the agent.
    Prompt,
    /// Append this entry to the configuration file.
    Save(RuleEntry),
    /// The access is decided.
    Finish(Decision),
    /// Nothing was expected.
    Ignore,
}

/// The contents of a [`CheckAction`].
pub ghost enum CheckActionView {
    Hash(HashNeeds),
    Prompt,
    Save(RuleEntryView),
    Finish(Decision),
    Ignore,
}

impl View for CheckAction {
    type V = CheckActionView;

    open spec fn view(&self) -> CheckActionView {
        match *self {
            CheckAction::Hash(needs) => CheckActionView::Hash(needs),
            CheckAction::Prompt => CheckActionView::Prompt,
            CheckAction::Save(entry) => CheckActionView::Save(entry@),
            CheckAction::Finish(decision) => CheckActionView::Finish(decision),
            CheckAction::Ignore => CheckActionView::Ignore,
        }
    }
}

/// What to do next, and whether to warn that the deciding rule is unpinned.
#[derive(Debug)]
pub struct CheckStep {
    pub action: CheckAction,
    pub warn_unpinned: bool,
}

/// A process accessing a watched file in a given direction.
#[derive(Debug)]
pub struct AccessCheck {
    process: ProcessInfo,
    file: FilePath,
    access: Access,
    stage: Stage,
}

/// The state of an [`AccessCheck`].
pub ghost struct CheckView {
    pub process: ProcessInfo,
    pub file: Seq<u8>,
    pub access: Access,
    pub stage: StageView,
}

impl View for AccessCheck {
    type V = CheckView;

    closed spec fn view(&self) -> CheckView {
        CheckView {
            process: self.process,
            file: self.file@,
            access: self.access,
            stage: self.stage@,
        }
    }
}

/// The access that a check is about.
pub open spec fn check_query(e: EngineView, c: CheckView, hashes: HashesView) -> Query {
    Query { caller: c.process@, file: c.file, access: c.access, hashes, platform: e.platform }
}

/// Whether a choice leaves a rule behind.
pub open spec fn is_permanent(choice: UserChoice) -> bool {
    choice == UserChoice::AllowAlways || choice == UserChoice::DenyAlways
}

/// No hashes.
pub open spec fn no_hashes() -> HashesView {
    HashesView { binary: None, script: None }
}

/// One step of a check: the engine, what is waited for, and what to do.
pub open spec fn check_step(e: EngineView, c: CheckView, event: CheckEventView) -> (
    EngineView,
    StageView,
    CheckActionView,
) {
    match (c.stage, event) {
        (StageView::Evaluating, CheckEventView::Hashed(hashes)) => {
            let q = check_query(e, c, hashes);
            match verdict(e, q) {
                Verdict::Decided(decision) => (
                    after_evaluation(e, q),
                    StageView::Done,
                    CheckActionView::Finish(decision),
                ),
                Verdict::Ask => (
                    after_evaluation(e, q),
                    StageView::Asking,
                    CheckActionView::Prompt,
                ),
            }
        },
        (StageView::Asking, CheckEventView::Answered(result)) => {
            let choice = choice_after(result, e.default_action);
            if is_permanent(choice) {
                (
                    e,
                    StageView::Pinning(choice),
                    CheckActionView::Hash(
                        HashNeeds { binary: true, script: c.process@.script is Some },
                    ),
                )
            } else {
                (
                    after_choice(e, choice, check_query(e, c, no_hashes())),
                    StageView::Done,
                    CheckActionView::Finish(decision_for(choice)),
                )
            }
        },
        (StageView::Pinning(choice), CheckEventView::Hashed(hashes)) => {
            match rule_for(choice, check_query(e, c, hashes)) {
                Some(rule) => (
                    e,
                    StageView::Saving(rule, decision_for(choice)),
                    CheckActionView::Save(entry_of_rule(rule)),
                ),
                None => (
                    after_choice(e, choice, check_query(e, c, hashes)),
                    StageView::Done,
                    CheckActionView::Finish(decision_for(choice)),
                ),
            }
        },
        (StageView::Saving(rule, decision), CheckEventView::Saved(ok)) => (
            if ok {
                with_rule(e, rule)
            } else {
                e
            },
            StageView::Done,
            CheckActionView::Finish(decision),
        ),
        (_, _) => (e, c.stage, CheckActionView::Ignore),
    }
}

impl AccessCheck {
    /// Begins to check an access: the files to hash first.
    pub fn begin(engine: &PolicyEngine, process: ProcessInfo, file: FilePath, access: Access) -> (r:
        (AccessCheck, HashNeeds))
        ensures
            r.0@ == (CheckView {
                process,
                file: file@,
                access,
                stage: StageView::Evaluating,
            }),
            r.1.binary == needs_binary_hash(engine@.rules, process@, file@, access),
            r.1.script == needs_script_hash(engine@.rules, process@, file@, access),
    {
        let needs = engine.hash_needs(&process, &file, access);
        (AccessCheck { process, file, access, stage: Stage::Evaluating }, needs)
    }

    /// The process whose access is checked.
    pub fn process(&self) -> (r: &ProcessInfo)
        ensures
            *r == self@.process,
    {
        &self.process
    }

    /// Gives the process back.
    pub fn into_process(self) -> (r: ProcessInfo)
        ensures
            r == self@.process,
    {
        self.process
    }

    /// Goes on after the last action came to `event`: persistent rules first,
    /// then the grants of this exact process instance, then the user. A rule
    /// that could not be saved does not fail the access.
    pub fn next(&mut self, engine: &mut PolicyEngine, event: CheckEvent) -> (r: CheckStep)
        ensures
            (final(engine)@, final(self)@.stage, r.action@) == check_step(
                old(engine)@,
                old(self)@,
                event@,
            ),
            final(self)@.process == old(self)@.process,
            final(self)@.file == old(self)@.file,
            final(self)@.access == old(self)@.access,
            r.warn_unpinned == (final(engine)@.warned != old(engine)@.warned),
    {
        let ghost c = self@;
        let mut stage = Stage::Done;
        std::mem::swap(&mut stage, &mut self.stage);
        match (stage, event) {
            (Stage::Evaluating, CheckEvent::Hashed(hashes)) => {
                let evaluation = engine.evaluate(&self.process, &self.file, self.access, &hashes);
                let action = match evaluation.verdict {
                    Verdict::Decided(decision) => CheckAction::Finish(decision),
                    Verdict::Ask => {
                        self.stage = Stage::Asking;
                        CheckAction::Prompt
                    },
                };
                CheckStep { action, warn_unpinned: evaluation.warn_unpinned }
            },
            (Stage::Asking, CheckEvent::Answered(result)) => {
                let choice = engine.prompter().prompt(result, engine.default_action());
                let action = match choice {
                    UserChoice::AllowAlways | UserChoice::DenyAlways => {
                        self.stage = Stage::Pinning(choice);
                        let script = self.process.script.is_some();
                        CheckAction::Hash(HashNeeds { binary: true, script })
                    },
                    _ => {
                        let none = FileHashes { binary: None, script: None };
                        let resolution = engine.apply_choice(
                            &self.process,
                            &self.file,
                            self.access,
                            choice,
                            &none,
                        );
                        CheckAction::Finish(resolution.decision)
                    },
                };
                CheckStep { action, warn_unpinned: false }
            },
            (Stage::Pinning(choice), CheckEvent::Hashed(hashes)) => {
                let resolution = engine.apply_choice(
                    &self.process,
                    &self.file,
                    self.access,
                    choice,
                    &hashes,
                );
                let decision = resolution.decision;
                let action = match resolution.new_rule {
                    Some(rule) => {
                        let entry = rule.to_entry();
                        self.stage = Stage::Saving(rule, decision);
                        CheckAction::Save(entry)
                    },
                    None => CheckAction::Finish(decision),
                };
                CheckStep { action, warn_unpinned: false }
            },
            (Stage::Saving(rule, decision), CheckEvent::Saved(ok)) => {
                let _ = engine.add_persistent_rule(rule, ok);
                CheckStep { action: CheckAction::Finish(decision), warn_unpinned: false }
            },
            (stage, _) => {
                self.stage = stage;
                CheckStep { action: CheckAction::Ignore, warn_unpinned: false }
            },
        }
    }
}

/// The check `c` in another stage.
pub open spec fn at_stage(c: CheckView, stage: StageView) -> CheckView {
    CheckView { stage, ..c }
}

/// An access that a rule or a grant decides is decided at once, and nobody is
/// asked.
pub proof fn law_known_accesses_are_decided_at_once(
    e: EngineView,
    c: CheckView,
    hashes: HashesView,
    choice: UserChoice,
)
    requires
        c.stage == StageView::Evaluating,
        verdict(e, check_query(e, c, hashes)) != Verdict::Ask,
    ensures
        check_step(e, c, CheckEventView::Hashed(hashes)) == (
            settled(e, check_query(e, c, hashes), choice),
            StageView::Done,
            CheckActionView::Finish(outcome(e, check_query(e, c, hashes), choice)),
        ),
{
}

/// An access that nothing decides is put to the user, and the answer decides it.
/// For an answer that is not permanent, that is all.
pub proof fn law_unknown_accesses_are_asked_about(
    e: EngineView,
    c: CheckView,
    hashes: HashesView,
    result: Result<PromptOutcome, ExchangeError>,
)
    requires
        c.stage == StageView::Evaluating,
        verdict(e, check_query(e, c, hashes)) == Verdict::Ask,
        !is_permanent(choice_after(result, e.default_action)),
    ensures
        ({
            let q = check_query(e, c, hashes);
            let choice = choice_after(result, e.default_action);
            let asked = check_step(e, c, CheckEventView::Hashed(hashes));
            &&& asked == (e, StageView::Asking, CheckActionView::Prompt)
            &&& check_step(
                asked.0,
                at_stage(c, asked.1),
                CheckEventView::Answered(result),
            ) == (settled(e, q, choice), StageView::Done, CheckActionView::Finish(outcome(e, q, choice)))
        }),
{
}

/// A permanent answer is pinned to the program as it is and saved, and the
/// access is decided by the answer whether or not the rule could be saved; the
/// rule counts from then on if it could.
pub proof fn law_permanent_answers_are_saved(
    e: EngineView,
    c: CheckView,
    hashes: HashesView,
    result: Result<PromptOutcome, ExchangeError>,
    ok: bool,
)
    requires
        c.stage == StageView::Evaluating,
        verdict(e, check_query(e, c, hashes)) == Verdict::Ask,
        is_permanent(choice_after(result, e.default_action)),
    ensures
        ({
            let q = check_query(e, c, hashes);
            let choice = choice_after(result, e.default_action);
            let asked = check_step(e, c, CheckEventView::Hashed(hashes));
            let answered = check_step(
                asked.0,
                at_stage(c, asked.1),
                CheckEventView::Answered(result),
            );
            let pinned = check_step(
                answered.0,
                at_stage(c, answered.1),
                CheckEventView::Hashed(hashes),
            );
            let saved = check_step(pinned.0, at_stage(c, pinned.1), CheckEventView::Saved(ok));
            &&& answered.2 is Hash
            &&& pinned.2 == CheckActionView::Save(entry_of_rule(rule_for(choice, q)->0))
            &&& saved.1 == StageView::Done
            &&& saved.2 == CheckActionView::Finish(outcome(e, q, choice))
            &&& saved.0 == (if ok {
                settled(e, q, choice)
            } else {
                e
            })
        }),
{
}

/// A permanent answer asks for the hashes of the caller's binary and of the
/// script that it runs, if any, and what they come to is what the rule pins, not
/// what was known when the access was evaluated.
pub proof fn law_answers_are_pinned_as_hashed(
    e: EngineView,
    c: CheckView,
    choice: UserChoice,
    hashes: HashesView,
)
    requires
        choice == UserChoice::AllowAlways || choice == UserChoice::DenyAlways,
    ensures
        check_step(
            e,
            at_stage(c, StageView::Asking),
            CheckEventView::Answered(Ok(PromptOutcome::Decided(choice))),
        ) == (
            e,
            StageView::Pinning(choice),
            CheckActionView::Hash(HashNeeds { binary: true, script: c.process.script is Some }),
        ),
        ({
            let pinned = check_step(
                e,
                at_stage(c, StageView::Pinning(choice)),
                CheckEventView::Hashed(hashes),
            );
            &&& pinned.0 == e
            &&& pinned.1 matches StageView::Saving(rule, decision) && {
                &&& rule.file == c.file
                &&& rule.binary == c.process.binary_path@
                &&& rule.access == Access::Any
                &&& rule.sha256 == hashes.binary
                &&& c.process.script is Some ==> rule.script_sha256 == hashes.script
                &&& decision == decision_for(choice)
                &&& pinned.2 == CheckActionView::Save(entry_of_rule(rule))
            }
        }),
{
}

/// The end of a check is the decision that was reached: saving the rule, or
/// failing to, does not change it, and only a rule that was saved is added.
pub proof fn law_saving_does_not_change_the_decision(
    e: EngineView,
    c: CheckView,
    rule: RuleView,
    decision: Decision,
    ok: bool,
)
    ensures
        ({
            let saved = check_step(
                e,
                at_stage(c, StageView::Saving(rule, decision)),
                CheckEventView::Saved(ok),
            );
            &&& saved.1 == StageView::Done
            &&& saved.2 == CheckActionView::Finish(decision)
            &&& ok ==> saved.0.rules == e.rules.push(rule)
            &&& !ok ==> saved.0 == e
        }),
{
}

/// An event that a check does not wait for changes nothing, and a check that is
/// done stays so.
pub proof fn law_unexpected_events_are_ignored(e: EngineView, c: CheckView, event: CheckEventView)
    requires
        ({
            ||| c.stage == StageView::Done
            ||| event is Hashed && (c.stage is Asking || c.stage is Saving)
            ||| event is Answered && c.stage !is Asking
            ||| event is Saved && c.stage !is Saving
        }),
    ensures
        check_step(e, c, event) == (e, c.stage, CheckActionView::Ignore),
{
}

/// The access that is evaluated is the one that the check is about, with the
/// hashes that were found.
pub proof fn law_checks_are_about_their_access(e: EngineView, c: CheckView, hashes: HashesView)
    ensures
        ({
            let q = check_query(e, c, hashes);
            &&& q.caller == c.process@
            &&& q.file == c.file
            &&& q.access == c.access
            &&& q.hashes == hashes
            &&& q.platform == e.platform
        }),
        no_hashes().binary is None,
        no_hashes().script is None,
{
}

/// An answer that is not permanent ends the check at once with its own decision,
/// and a missing answer with the default action for this once, of which nothing
/// is remembered.
pub proof fn law_passing_answers_end_the_check(
    e: EngineView,
    c: CheckView,
    choice: UserChoice,
    result: Result<PromptOutcome, ExchangeError>,
)
    requires
        c.stage == StageView::Asking,
        !(result matches Ok(PromptOutcome::Decided(_))),
    ensures
        choice == UserChoice::AllowOnce || choice == UserChoice::DenyOnce || choice
            == UserChoice::AllowSession ==> check_step(
            e,
            c,
            CheckEventView::Answered(Ok(PromptOutcome::Decided(choice))),
        ) == (
            after_choice(e, choice, check_query(e, c, no_hashes())),
            StageView::Done,
            CheckActionView::Finish(decision_for(choice)),
        ),
        check_step(e, c, CheckEventView::Answered(result)) == (
            e,
            StageView::Done,
            CheckActionView::Finish(
                if e.default_action == DefaultAction::Allow {
                    Decision::AllowOnce
                } else {
                    Decision::DenyOnce
                },
            ),
        ),
{
}

/// An event and an action of a check are what they hold.
pub proof fn law_checks_are_told_what_happened(
    hashes: FileHashes,
    result: Result<PromptOutcome, ExchangeError>,
    saved: bool,
    needs: HashNeeds,
    entry: RuleEntry,
    decision: Decision,
)
    ensures
        CheckEvent::Hashed(hashes)@ == CheckEventView::Hashed(hashes@),
        CheckEvent::Answered(result)@ == CheckEventView::Answered(result),
        CheckEvent::Saved(saved)@ == CheckEventView::Saved(saved),
        CheckAction::Hash(needs)@ == CheckActionView::Hash(needs),
        CheckAction::Prompt@ == CheckActionView::Prompt,
        CheckAction::Save(entry)@ == CheckActionView::Save(entry@),
        CheckAction::Finish(decision)@ == CheckActionView::Finish(decision),
        CheckAction::Ignore@ == CheckActionView::Ignore,
{
}

} // verus!
