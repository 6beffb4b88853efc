//! The rule model: keyword/mention triggers bound to candidate actions,
//! together with load-time validation of raw configuration entries.

use vstd::prelude::*;
use crate::text::chars_eq;
use crate::text::to_chars;

verus! {

/// An effect bundle executed when a rule matches. Any subset of the fields
/// may be set; every set field is executed, with the file suppressing the
/// separate plain message (the message then travels as the file's caption).
#[derive(Clone, Debug, PartialEq)]
pub struct Action {
    /// Each entry is either a numeric custom-emote identifier or a literal
    /// unicode character sequence to react with.
    pub emotes: Option<Vec<String>>,
    /// Path of an attachment, relative to the file base directory.
    pub file: Option<String>,
    /// Literal reply text; the caption of the file when one is set.
    pub message: Option<String>,
    /// Template text whose placeholder is replaced by a reference to the
    /// triggering author.
    pub mention: Option<String>,
}

/// The set of matching strategies active for a rule.
#[derive(Clone, Copy, Debug, PartialEq, Eq, Structural)]
pub struct Triggers {
    pub keyword: bool,
    pub mention: bool,
}

/// One configured keyword action: trigger conditions and candidate actions.
#[derive(Clone, Debug, PartialEq)]
pub struct Rule {
    /// Identifier for logging and diagnostics.
    pub name: String,
    /// Literal tokens; a rule with no keywords never keyword-matches.
    pub keywords: Vec<String>,
    /// Which matching strategies are active.
    pub triggers: Triggers,
    /// The user whose mention triggers the rule; meaningful only when the
    /// mention trigger is active.
    pub mentioned_user: Option<u64>,
    /// Candidate actions; exactly one is chosen per match event.
    pub actions: Vec<Action>,
}

/// A raw configuration entry, before validation: every field optional, and
/// triggers still plain words.
#[derive(Clone, Debug, PartialEq)]
pub struct RuleConfig {
    pub name: Option<String>,
    pub keywords: Option<Vec<String>>,
    pub triggers: Option<Vec<String>>,
    pub mentioned_user: Option<u64>,
    pub actions: Option<Vec<Action>>,
}

/// A malformed or invariant-violating rule configuration, detected at load
/// time.
#[derive(Clone, Copy, Debug, PartialEq, Eq, Structural)]
pub enum ConfigError {
    /// The entry has no name.
    MissingName,
    /// The entry has no trigger list.
    MissingTriggers,
    /// A trigger word is neither the keyword nor the mention word.
    UnknownTrigger,
    /// The mention trigger is active but no mentioned user is given.
    MentionTriggerWithoutUser,
    /// The keyword trigger is active but no keywords are given.
    KeywordTriggerWithoutKeywords,
    /// The entry has no action list.
    MissingActions,
    /// The entry's action list is empty.
    EmptyActions,
}

/// The views of a sequence of strings.
pub open spec fn str_views(v: Seq<String>) -> Seq<Seq<char>> {
    v.map_values(|s: String| s@)
}

/// The trigger word that activates keyword matching.
pub open spec fn keyword_word() -> Seq<char> {
    seq!['k', 'e', 'y', 'w', 'o', 'r', 'd']
}

/// The trigger word that activates mention matching.
pub open spec fn mention_word() -> Seq<char> {
    seq!['m', 'e', 'n', 't', 'i', 'o', 'n']
}

/// Whether every trigger word is one of the two known words.
pub open spec fn trigger_words_valid(ts: Seq<Seq<char>>) -> bool {
    forall|i: int|
        0 <= i < ts.len() ==> (#[trigger] ts[i]) == keyword_word() || ts[i] == mention_word()
}

/// The trigger set named by a list of trigger words.
pub open spec fn triggers_of(ts: Seq<Seq<char>>) -> Triggers {
    Triggers {
        keyword: exists|i: int| 0 <= i < ts.len() && (#[trigger] ts[i]) == keyword_word(),
        mention: exists|i: int| 0 <= i < ts.len() && (#[trigger] ts[i]) == mention_word(),
    }
}

/// The keyword list of a raw entry; no list reads as no keywords.
pub open spec fn config_keywords(rc: RuleConfig) -> Seq<String> {
    match rc.keywords {
        Some(ks) => ks@,
        None => Seq::empty(),
    }
}

/// The first configuration error of a raw entry, in the order the checks
/// are made, or nothing when the entry is valid.
pub open spec fn config_error_of(rc: RuleConfig) -> Option<ConfigError> {
    if rc.name is None {
        Some(ConfigError::MissingName)
    } else if rc.triggers is None {
        Some(ConfigError::MissingTriggers)
    } else if !trigger_words_valid(str_views(rc.triggers->0@)) {
        Some(ConfigError::UnknownTrigger)
    } else if triggers_of(str_views(rc.triggers->0@)).mention && rc.mentioned_user is None {
        Some(ConfigError::MentionTriggerWithoutUser)
    } else if triggers_of(str_views(rc.triggers->0@)).keyword && config_keywords(rc).len() == 0 {
        Some(ConfigError::KeywordTriggerWithoutKeywords)
    } else if rc.actions is None {
        Some(ConfigError::MissingActions)
    } else if rc.actions->0@.len() == 0 {
        Some(ConfigError::EmptyActions)
    } else {
        None
    }
}

/// The invariant of a validated rule: an active mention trigger names a
/// user, and an active keyword trigger has keywords to match.
pub open spec fn rule_wf(r: Rule) -> bool {
    &&& r.triggers.mention ==> r.mentioned_user is Some
    &&& r.triggers.keyword ==> r.keywords@.len() > 0
    &&& r.actions@.len() > 0
}

/// How a validated rule reads back the raw entry it came from.
pub open spec fn rule_corresponds(rc: RuleConfig, r: Rule) -> bool {
    &&& r.name == rc.name->0
    &&& r.keywords@ == config_keywords(rc)
    &&& r.triggers == triggers_of(str_views(rc.triggers->0@))
    &&& r.mentioned_user == rc.mentioned_user
    &&& r.actions@ == rc.actions->0@
}

/// Reads the trigger words of a raw entry into a trigger set, or reports
/// the first unknown word.
fn parse_triggers(ts: &Vec<String>) -> (r: Result<Triggers, ConfigError>)
    ensures
        trigger_words_valid(str_views(ts@)) ==> r == Result::<Triggers, ConfigError>::Ok(
            triggers_of(str_views(ts@)),
        ),
        !trigger_words_valid(str_views(ts@)) ==> r == Result::<Triggers, ConfigError>::Err(
            ConfigError::UnknownTrigger,
        ),
{
    let keyword_chars: Vec<char> = vec!['k', 'e', 'y', 'w', 'o', 'r', 'd'];
    let mention_chars: Vec<char> = vec!['m', 'e', 'n', 't', 'i', 'o', 'n'];
    assert(keyword_chars@ =~= keyword_word());
    assert(mention_chars@ =~= mention_word());
    let mut keyword = false;
    let mut mention = false;
    let mut i: usize = 0;
    while i < ts.len()
        invariant
            i <= ts@.len(),
            keyword_chars@ == keyword_word(),
            mention_chars@ == mention_word(),
            forall|j: int|
                0 <= j < i ==> (#[trigger] str_views(ts@)[j]) == keyword_word() || str_views(
                    ts@,
                )[j] == mention_word(),
            keyword == exists|j: int|
                0 <= j < i && (#[trigger] str_views(ts@)[j]) == keyword_word(),
            mention == exists|j: int|
                0 <= j < i && (#[trigger] str_views(ts@)[j]) == mention_word(),
        decreases ts@.len() - i,
    {
        let w = to_chars(ts[i].as_str());
        assert(w@ == str_views(ts@)[i as int]);
        if chars_eq(&w, &keyword_chars) {
            keyword = true;
        } else if chars_eq(&w, &mention_chars) {
            mention = true;
        } else {
            assert(!trigger_words_valid(str_views(ts@)));
            return Err(ConfigError::UnknownTrigger);
        }
        i += 1;
    }
    assert(trigger_words_valid(str_views(ts@)));
    assert(keyword == triggers_of(str_views(ts@)).keyword);
    assert(mention == triggers_of(str_views(ts@)).mention);
    Ok(Triggers { keyword, mention })
}

/// Validates one raw entry against the rule invariants, in a fixed check
/// order, and builds the rule it describes.
pub fn validate_rule(rc: RuleConfig) -> (r: Result<Rule, ConfigError>)
    ensures
        match r {
            Ok(rule) => config_error_of(rc) is None && rule_corresponds(rc, rule) && rule_wf(
                rule,
            ),
            Err(e) => config_error_of(rc) == Some(e),
        },
{
    let RuleConfig { name, keywords, triggers, mentioned_user, actions } = rc;
    let name = match name {
        Some(n) => n,
        None => {
            return Err(ConfigError::MissingName);
        },
    };
    let trigger_words = match triggers {
        Some(ts) => ts,
        None => {
            return Err(ConfigError::MissingTriggers);
        },
    };
    let trigger_set = match parse_triggers(&trigger_words) {
        Ok(t) => t,
        Err(e) => {
            return Err(e);
        },
    };
    if trigger_set.mention && mentioned_user.is_none() {
        return Err(ConfigError::MentionTriggerWithoutUser);
    }
    let keyword_list = match keywords {
        Some(ks) => ks,
        None => Vec::new(),
    };
    assert(keyword_list@ == config_keywords(rc));
    if trigger_set.keyword && keyword_list.len() == 0 {
        return Err(ConfigError::KeywordTriggerWithoutKeywords);
    }
    let action_list = match actions {
        Some(a) => a,
        None => {
            return Err(ConfigError::MissingActions);
        },
    };
    if action_list.len() == 0 {
        return Err(ConfigError::EmptyActions);
    }
    Ok(Rule { name, keywords: keyword_list, triggers: trigger_set, mentioned_user, actions: action_list })
}

/// Validates a whole loaded configuration: returns the rules in order, or
/// the error of the first invalid entry. The process must not proceed with
/// partial or invalid rules.
pub fn validate_rules(cfgs: Vec<RuleConfig>) -> (r: Result<Vec<Rule>, ConfigError>)
    ensures
        match r {
            Ok(rules) => {
                &&& rules@.len() == cfgs@.len()
                &&& forall|i: int|
                    0 <= i < cfgs@.len() ==> config_error_of(#[trigger] cfgs@[i]) is None
                        && rule_corresponds(cfgs@[i], rules@[i]) && rule_wf(rules@[i])
            },
            Err(e) => exists|i: int|
                {
                    &&& 0 <= i < cfgs@.len()
                    &&& config_error_of(#[trigger] cfgs@[i]) == Some(e)
                    &&& forall|j: int| 0 <= j < i ==> config_error_of(#[trigger] cfgs@[j]) is None
                },
        },
{
    let ghost orig = cfgs@;
    let mut rest = cfgs;
    let mut out: Vec<Rule> = Vec::new();
    while rest.len() > 0
        invariant
            orig == cfgs@,
            out@.len() + rest@.len() == orig.len(),
            rest@ == orig.skip(out@.len() as int),
            forall|j: int|
                0 <= j < out@.len() ==> config_error_of(#[trigger] orig[j]) is None
                    && rule_corresponds(orig[j], out@[j]) && rule_wf(out@[j]),
        decreases rest@.len(),
    {
        let ghost done = out@.len() as int;
        let rc = rest.remove(0);
        proof {
            assert(rc == orig[done]);
            assert(rest@ =~= orig.skip(done + 1));
        }
        match validate_rule(rc) {
            Ok(rule) => {
                out.push(rule);
            },
            Err(e) => {
                return Err(e);
            },
        }
    }
    assert(out@.len() == orig.len());
    Ok(out)
}

} // verus!
