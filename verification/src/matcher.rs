//! Deciding whether an incoming message matches a rule: mention-set
//! membership, and whole-word keyword containment under a fixed boundary
//! character set.

use vstd::prelude::*;
use crate::rules::Rule;
use crate::rules::rule_wf;
use crate::text::contains_u64;
use crate::text::occurs_at;
use crate::text::to_chars;

verus! {

/// An incoming chat message, reduced to what matching and dispatch read:
/// its text, its author, and the users it mentions.
#[derive(Clone, Debug, PartialEq)]
pub struct IncomingMessage {
    pub text: String,
    pub author_id: u64,
    pub author_name: String,
    pub mentions: Vec<u64>,
}

/// Whether `c` may close a word-bounded keyword occurrence.
pub open spec fn closes_word(c: char) -> bool {
    c == ' ' || c == '?' || c == '.' || c == ',' || c == '\''
}

/// Whether `kw` occurs in `text` at position `i` as a word-bounded token:
/// preceded by start of text or a space, and followed by end of text or a
/// boundary character.
pub open spec fn word_occurrence_at(text: Seq<char>, kw: Seq<char>, i: int) -> bool {
    &&& 0 <= i
    &&& i + kw.len() <= text.len()
    &&& text.subrange(i, i + kw.len()) == kw
    &&& (i == 0 || text[i - 1] == ' ')
    &&& (i + kw.len() == text.len() || closes_word(text[i + kw.len()]))
}

/// Whether `text` contains `kw` as a word-bounded token anywhere.
pub open spec fn contains_word(text: Seq<char>, kw: Seq<char>) -> bool {
    exists|i: int| word_occurrence_at(text, kw, i)
}

/// Whether the rule keyword-matches the message text: it has keywords, and
/// at least one occurs word-bounded in the text. Keyword matching is active
/// for every rule that has keywords — the keyword trigger word only demands
/// at load time that keywords exist — while mention matching is gated on
/// the mention trigger. Matching is case-sensitive.
pub open spec fn keyword_match(r: Rule, text: Seq<char>) -> bool {
    &&& r.keywords@.len() > 0
    &&& exists|k: int| 0 <= k < r.keywords@.len() && contains_word(text, (#[trigger] r.keywords@[k])@)
}

/// Whether the rule mention-matches the message: its mention trigger is
/// active and the message mentions the rule's user.
pub open spec fn mention_match(r: Rule, mentions: Seq<u64>) -> bool {
    &&& r.triggers.mention
    &&& r.mentioned_user is Some
    &&& mentions.contains(r.mentioned_user->0)
}

/// Whether the rule matches the message: any active trigger condition
/// holds.
pub open spec fn rule_matches(r: Rule, m: IncomingMessage) -> bool {
    mention_match(r, m.mentions@) || keyword_match(r, m.text@)
}

fn closes_word_exec(c: char) -> (r: bool)
    ensures
        r == closes_word(c),
{
    match c {
        ' ' | '?' | '.' | ',' | '\'' => true,
        _ => false,
    }
}

/// Whether `text` contains `kw` as a word-bounded token.
pub fn find_word(text: &Vec<char>, kw: &Vec<char>) -> (r: bool)
    ensures
        r == contains_word(text@, kw@),
{
    let t_len = text.len();
    let k_len = kw.len();
    if k_len > t_len {
        assert(forall|i: int| !word_occurrence_at(text@, kw@, i));
        return false;
    }
    let last = t_len - k_len;
    let mut i: usize = 0;
    loop
        invariant
            t_len == text@.len(),
            k_len == kw@.len(),
            k_len <= t_len,
            last == t_len - k_len,
            i <= last,
            forall|j: int| 0 <= j < i ==> !word_occurrence_at(text@, kw@, j),
        ensures
            forall|j: int| !word_occurrence_at(text@, kw@, j),
        decreases last - i,
    {
        let opens = i == 0 || text[i - 1] == ' ';
        let end = i + k_len;
        let closes = if end == t_len {
            true
        } else {
            closes_word_exec(text[end])
        };
        if opens && closes {
            if occurs_at(text, kw, i) {
                assert(word_occurrence_at(text@, kw@, i as int));
                return true;
            }
        }
        assert(!word_occurrence_at(text@, kw@, i as int));
        if i == last {
            proof {
                assert forall|j: int| !word_occurrence_at(text@, kw@, j) by {
                    if 0 <= j <= last {
                    } else if j > last {
                        assert(j + kw@.len() > text@.len());
                    }
                }
            }
            break;
        }
        i += 1;
    }
    false
}

/// Decides whether one rule matches one incoming message: true iff the
/// mention trigger finds the rule's user in the message's mention set, or
/// at least one keyword occurs word-bounded in the message text.
pub fn matches(rule: &Rule, message: &IncomingMessage) -> (r: bool)
    requires
        rule_wf(*rule),
    ensures
        r == rule_matches(*rule, *message),
{
    if rule.triggers.mention {
        let hit = match &rule.mentioned_user {
            Some(u) => contains_u64(&message.mentions, *u),
            None => {
                assert(false);
                false
            },
        };
        if hit {
            return true;
        }
    }
    let text = to_chars(message.text.as_str());
    let mut k: usize = 0;
    while k < rule.keywords.len()
        invariant
            text@ == message.text@,
            k <= rule.keywords@.len(),
            forall|j: int| 0 <= j < k ==> !contains_word(message.text@, (#[trigger] rule.keywords@[j])@),
            !mention_match(*rule, message.mentions@),
        decreases rule.keywords@.len() - k,
    {
        let kw = to_chars(rule.keywords[k].as_str());
        if find_word(&text, &kw) {
            assert(contains_word(message.text@, rule.keywords@[k as int]@));
            return true;
        }
        k += 1;
    }
    assert(!keyword_match(*rule, message.text@));
    false
}

/// Evaluates every rule against the message independently and returns the
/// indices, in order, of the rules that match; multiple rules may match the
/// same message and each fires its own action independently.
pub fn matching_rules(rules: &Vec<Rule>, message: &IncomingMessage) -> (r: Vec<usize>)
    requires
        forall|i: int| 0 <= i < rules@.len() ==> rule_wf(#[trigger] rules@[i]),
    ensures
        forall|j: int|
            0 <= j < r@.len() ==> (#[trigger] r@[j]) < rules@.len() && rule_matches(
                rules@[r@[j] as int],
                *message,
            ),
        forall|i: int|
            0 <= i < rules@.len() && rule_matches(#[trigger] rules@[i], *message) ==> r@.contains(
                i as usize,
            ),
        forall|j1: int, j2: int| 0 <= j1 < j2 < r@.len() ==> r@[j1] < r@[j2],
{
    let mut out: Vec<usize> = Vec::new();
    let mut i: usize = 0;
    while i < rules.len()
        invariant
            i <= rules@.len(),
            forall|k: int| 0 <= k < rules@.len() ==> rule_wf(#[trigger] rules@[k]),
            forall|j: int|
                0 <= j < out@.len() ==> (#[trigger] out@[j]) < i && rule_matches(
                    rules@[out@[j] as int],
                    *message,
                ),
            forall|k: int|
                0 <= k < i && rule_matches(#[trigger] rules@[k], *message) ==> out@.contains(
                    k as usize,
                ),
            forall|j1: int, j2: int| 0 <= j1 < j2 < out@.len() ==> out@[j1] < out@[j2],
        decreases rules@.len() - i,
    {
        if matches(&rules[i], message) {
            let ghost old_out = out@;
            out.push(i);
            proof {
                assert(out@[out@.len() - 1] == i);
                assert(out@.contains(i));
                assert forall|k: usize| old_out.contains(k) implies out@.contains(k) by {
                    let idx = choose|idx: int| 0 <= idx < old_out.len() && old_out[idx] == k;
                    assert(out@[idx] == k);
                }
            }
        }
        i += 1;
    }
    out
}

} // verus!
