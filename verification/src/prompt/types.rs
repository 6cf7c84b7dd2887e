//! What the user can answer.
use crate::config::DefaultAction;
use vstd::prelude::*;

verus! {

/// The user's answer to a prompt.
#[derive(Debug, Clone, Copy, PartialEq, Eq, Structural)]
pub enum UserChoice {
    AllowOnce,
    AllowSession,
    AllowAlways,
    DenyOnce,
    DenyAlways,
}

/// The choice that stands in for an answer that did not come: the default
/// action, this once.
pub open spec fn fallback(action: DefaultAction) -> UserChoice {
    match action {
        DefaultAction::Allow => UserChoice::AllowOnce,
        DefaultAction::Deny => UserChoice::DenyOnce,
    }
}

/// The choice that stands in for an answer that did not come.
pub fn default_choice(action: DefaultAction) -> (r: UserChoice)
    ensures
        r == fallback(action),
{
    match action {
        DefaultAction::Allow => UserChoice::AllowOnce,
        DefaultAction::Deny => UserChoice::DenyOnce,
    }
}

/// A missing answer counts for one access only, and lets it go ahead only where
/// the default action allows.
pub proof fn law_missing_answers_count_once(action: DefaultAction)
    ensures
        action == DefaultAction::Allow ==> fallback(action) == UserChoice::AllowOnce,
        action != DefaultAction::Allow ==> fallback(action) == UserChoice::DenyOnce,
{
}

} // verus!
