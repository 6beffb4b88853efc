//! Routing one incoming message: own messages are ignored, a direct
//! address goes to the response relay, and everything else is evaluated
//! against the keyword rules, each matched rule firing one chosen action.

use vstd::prelude::*;
use crate::executor::Execution;
use crate::executor::effects_of;
use crate::matcher::IncomingMessage;
use crate::matcher::rule_matches;
use crate::rules::Rule;
use crate::rules::rule_wf;
use crate::selector::select;

verus! {

/// What to do with one incoming message.
#[derive(Clone, Copy, Debug, PartialEq, Eq, Structural)]
pub enum Route {
    /// The bot's own message: nothing happens.
    Ignore,
    /// The message addresses the bot directly: the response relay answers.
    Relay,
    /// Anything else: the keyword rules are evaluated.
    KeywordActions,
}

/// Where a message from `author_id` mentioning `mentions` goes, as seen by
/// the bot `self_id`.
pub open spec fn route_of(self_id: u64, author_id: u64, mentions: Seq<u64>) -> Route {
    if author_id == self_id {
        Route::Ignore
    } else if mentions.contains(self_id) {
        Route::Relay
    } else {
        Route::KeywordActions
    }
}

/// Routes one incoming message: the bot ignores itself, answers a direct
/// address through the relay, and otherwise evaluates the keyword rules.
pub fn route_message(self_id: u64, message: &IncomingMessage) -> (r: Route)
    ensures
        r == route_of(self_id, message.author_id, message.mentions@),
{
    if message.author_id == self_id {
        Route::Ignore
    } else if crate::text::contains_u64(&message.mentions, self_id) {
        Route::Relay
    } else {
        Route::KeywordActions
    }
}

/// Evaluates one rule against one message and, when it matches, chooses one
/// of the rule's actions at random and starts an execution over the
/// action's planned effects; a rule that does not match fires nothing.
pub fn dispatch_rule(rule: &Rule, message: &IncomingMessage, base_dir: &str) -> (r: Option<
    Execution,
>)
    requires
        rule_wf(*rule),
    ensures
        r is Some <==> rule_matches(*rule, *message),
        match r {
            Some(e) => {
                &&& e.wf()
                &&& e.next == 0
                &&& exists|k: int|
                    0 <= k < rule.actions@.len() && e.planned() == effects_of(
                        #[trigger] rule.actions@[k],
                        base_dir@,
                        message.author_id,
                    )
                &&& rule.actions@.len() == 1 ==> e.planned() == effects_of(
                    rule.actions@[0],
                    base_dir@,
                    message.author_id,
                )
            },
            None => true,
        },
{
    if crate::matcher::matches(rule, message) {
        let action = select(rule);
        let e = Execution::start(action, base_dir, message.author_id);
        Some(e)
    } else {
        None
    }
}

} // verus!
