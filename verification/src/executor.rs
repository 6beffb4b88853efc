//! Planning and executing the side effects of a selected action: reactions
//! first, then the file-bearing or plain message send, then the independent
//! mention send. Execution is a state machine that attempts every planned
//! effect, tolerating the failure of any single one.

use vstd::prelude::*;
use crate::rules::Action;
use crate::rules::str_views;
use crate::text::from_chars;
use crate::text::mention_reference;
use crate::text::mention_token;
use crate::text::parse_u64;
use crate::text::parses_as_u64;
use crate::text::replace_all;
use crate::text::replace_all_spec;
use crate::text::to_chars;
use crate::text::u64_val;

verus! {

/// A reference to an emote to react with.
#[derive(Clone, Debug, PartialEq)]
pub enum EmoteRef {
    /// A numeric custom-emote identifier, resolved within the message's
    /// origin guild.
    Custom(u64),
    /// A literal unicode character sequence used directly as the reaction.
    Unicode(String),
}

/// The value of an [`EmoteRef`].
pub enum EmoteRefV {
    Custom(u64),
    Unicode(Seq<char>),
}

impl View for EmoteRef {
    type V = EmoteRefV;

    open spec fn view(&self) -> EmoteRefV {
        match self {
            EmoteRef::Custom(id) => EmoteRefV::Custom(*id),
            EmoteRef::Unicode(s) => EmoteRefV::Unicode(s@),
        }
    }
}

/// One outbound side effect against the chat platform.
#[derive(Clone, Debug, PartialEq)]
pub enum Effect {
    /// React to the triggering message with an emote.
    React(EmoteRef),
    /// Send one message carrying the file at `path`, captioned by `caption`
    /// when one is set.
    SendFile { path: String, caption: Option<String> },
    /// Send a plain text message to the triggering channel.
    SendText(String),
}

/// The value of an [`Effect`].
pub enum EffectV {
    React(EmoteRefV),
    SendFile { path: Seq<char>, caption: Option<Seq<char>> },
    SendText(Seq<char>),
}

impl View for Effect {
    type V = EffectV;

    open spec fn view(&self) -> EffectV {
        match self {
            Effect::React(e) => EffectV::React(e@),
            Effect::SendFile { path, caption } => EffectV::SendFile {
                path: path@,
                caption: match caption {
                    Some(c) => Some(c@),
                    None => None,
                },
            },
            Effect::SendText(t) => EffectV::SendText(t@),
        }
    }
}

/// The reaction planned for one configured emote entry: a numeric entry
/// names a custom emote, anything else reacts as a literal.
pub open spec fn emote_effect(e: Seq<char>) -> EffectV {
    if parses_as_u64(e) {
        EffectV::React(EmoteRefV::Custom(u64_val(e)))
    } else {
        EffectV::React(EmoteRefV::Unicode(e))
    }
}

/// The reactions planned for an action, one per emote entry, in order.
pub open spec fn emote_effects(a: Action) -> Seq<EffectV> {
    match a.emotes {
        Some(es) => str_views(es@).map_values(|e: Seq<char>| emote_effect(e)),
        None => Seq::empty(),
    }
}

/// The directory under the base directory that holds attachments.
pub open spec fn embed_dir() -> Seq<char> {
    seq!['f', 'i', 'l', 'e', '_', 'e', 'm', 'b', 'e', 'd', 's']
}

/// Where the attachment named `file` lives: under the embed directory of
/// the configured base directory.
pub open spec fn file_path_of(base_dir: Seq<char>, file: Seq<char>) -> Seq<char> {
    base_dir + seq!['/'] + embed_dir() + seq!['/'] + file
}

/// The view of an optional string.
pub open spec fn opt_view(s: Option<String>) -> Option<Seq<char>> {
    match s {
        Some(v) => Some(v@),
        None => None,
    }
}

/// The message-bearing send planned for an action. A set file yields
/// exactly one file-bearing send, captioned by the message when one is set,
/// and suppresses the separate plain send; a message without a file yields
/// exactly one plain send.
pub open spec fn send_effects(a: Action, base_dir: Seq<char>) -> Seq<EffectV> {
    match a.file {
        Some(f) => seq![
            EffectV::SendFile { path: file_path_of(base_dir, f@), caption: opt_view(a.message) },
        ],
        None => match a.message {
            Some(m) => seq![EffectV::SendText(m@)],
            None => Seq::empty(),
        },
    }
}

/// The placeholder token of a mention template.
pub open spec fn mention_placeholder() -> Seq<char> {
    seq!['@', 'm', 'e', 'n', 't', 'i', 'o', 'n']
}

/// The text of a mention send: the template with every placeholder replaced
/// by a reference to the triggering author.
pub open spec fn mention_text(template: Seq<char>, author_id: u64) -> Seq<char> {
    replace_all_spec(template, mention_placeholder(), mention_token(author_id))
}

/// The mention send planned for an action; it is independent of the file
/// and message sends.
pub open spec fn mention_effects(a: Action, author_id: u64) -> Seq<EffectV> {
    match a.mention {
        Some(t) => seq![EffectV::SendText(mention_text(t@, author_id))],
        None => Seq::empty(),
    }
}

/// Every effect planned for an action, in execution order: reactions, then
/// the file-bearing or plain send, then the mention send.
pub open spec fn effects_of(a: Action, base_dir: Seq<char>, author_id: u64) -> Seq<EffectV> {
    emote_effects(a) + send_effects(a, base_dir) + mention_effects(a, author_id)
}

/// The views of a sequence of effects.
pub open spec fn effect_views(v: Seq<Effect>) -> Seq<EffectV> {
    v.map_values(|e: Effect| e@)
}

/// Plans, in execution order, every side effect of one selected action for
/// the message that triggered it.
pub fn plan_effects(action: &Action, base_dir: &str, author_id: u64) -> (v: Vec<Effect>)
    ensures
        effect_views(v@) == effects_of(*action, base_dir@, author_id),
{
    let mut out: Vec<Effect> = Vec::new();
    match &action.emotes {
        Some(es) => {
            let ghost target = emote_effects(*action);
            assert(target.len() == es@.len());
            let mut i: usize = 0;
            while i < es.len()
                invariant
                    i <= es@.len(),
                    action.emotes == Some(*es),
                    target == emote_effects(*action),
                    target.len() == es@.len(),
                    effect_views(out@) == target.take(i as int),
                decreases es@.len() - i,
            {
                let ec = to_chars(es[i].as_str());
                assert(ec@ == str_views(es@)[i as int]);
                let eff = match parse_u64(&ec) {
                    Some(id) => Effect::React(EmoteRef::Custom(id)),
                    None => Effect::React(EmoteRef::Unicode(from_chars(&ec))),
                };
                assert(eff@ == target[i as int]);
                let ghost prev = out@;
                out.push(eff);
                i += 1;
                proof {
                    assert(out@.drop_last() == prev);
                    assert(effect_views(prev).len() == prev.len());
                    assert(prev.len() == i - 1);
                    assert(effect_views(out@) =~~= target.take(i as int)) by {
                        assert(out@.len() == i);
                        assert forall|j: int| 0 <= j < i implies effect_views(out@)[j]
                            == target.take(i as int)[j] by {
                            if j < i - 1 {
                                assert(out@[j] == prev[j]);
                                assert(effect_views(prev)[j] == target.take(i - 1)[j]);
                            } else {
                                assert(out@[j] == eff);
                            }
                        }
                    }
                }
            }
            assert(effect_views(out@) =~= emote_effects(*action));
        },
        None => {
            assert(effect_views(out@) =~= emote_effects(*action));
        },
    }
    assert(effect_views(out@) == emote_effects(*action));
    match &action.file {
        Some(f) => {
            let mut path: Vec<char> = to_chars(base_dir);
            path.push('/');
            let dir: Vec<char> = vec!['f', 'i', 'l', 'e', '_', 'e', 'm', 'b', 'e', 'd', 's'];
            path.extend_from_slice(dir.as_slice());
            path.push('/');
            let file_chars = to_chars(f.as_str());
            path.extend_from_slice(file_chars.as_slice());
            assert(path@ =~= file_path_of(base_dir@, f@));
            let caption: Option<String> = match &action.message {
                Some(m) => Some(m.clone()),
                None => None,
            };
            let eff = Effect::SendFile { path: from_chars(&path), caption };
            assert(eff@ == send_effects(*action, base_dir@)[0]);
            out.push(eff);
        },
        None => {
            match &action.message {
                Some(m) => {
                    let eff = Effect::SendText(m.clone());
                    assert(eff@ == send_effects(*action, base_dir@)[0]);
                    out.push(eff);
                },
                None => {
                },
            }
        },
    }
    assert(effect_views(out@) =~= emote_effects(*action) + send_effects(*action, base_dir@));
    match &action.mention {
        Some(t) => {
            let template = to_chars(t.as_str());
            let placeholder: Vec<char> = vec!['@', 'm', 'e', 'n', 't', 'i', 'o', 'n'];
            assert(placeholder@ =~= mention_placeholder());
            let reference = mention_reference(author_id);
            let replaced = replace_all(&template, &placeholder, &reference);
            let eff = Effect::SendText(from_chars(&replaced));
            assert(eff@ == mention_effects(*action, author_id)[0]);
            out.push(eff);
        },
        None => {
        },
    }
    assert(effect_views(out@) =~= effects_of(*action, base_dir@, author_id));
    out
}

/// The execution state machine over one planned action: the driver asks for
/// the current effect, attempts it against the outbound capability, and
/// records whether it succeeded; every planned effect is attempted exactly
/// once, whatever the outcomes of the earlier ones.
pub struct Execution {
    /// The planned effects, fixed at start.
    pub plan: Vec<Effect>,
    /// How many effects have been attempted so far.
    pub next: usize,
    /// The recorded outcome of each attempted effect, in plan order;
    /// `false` marks a failure, which never stops the later effects.
    pub outcomes: Vec<bool>,
}

impl Execution {
    /// One outcome is recorded per attempted effect, and no effect beyond
    /// the plan is attempted.
    pub open spec fn wf(self) -> bool {
        self.next == self.outcomes@.len() && self.next <= self.plan@.len()
    }

    /// The values of the planned effects.
    pub open spec fn planned(self) -> Seq<EffectV> {
        effect_views(self.plan@)
    }

    /// The values of the effects attempted so far.
    pub open spec fn attempted(self) -> Seq<EffectV> {
        self.planned().take(self.next as int)
    }

    /// The values of the effects still to attempt.
    pub open spec fn remaining(self) -> Seq<EffectV> {
        self.planned().skip(self.next as int)
    }

    /// The value of the effect to attempt next, if any is left.
    pub open spec fn current_value(self) -> Option<EffectV> {
        if self.next < self.planned().len() {
            Some(self.planned()[self.next as int])
        } else {
            None
        }
    }

    /// Starts an execution over every effect planned for the action.
    pub fn start(action: &Action, base_dir: &str, author_id: u64) -> (e: Execution)
        ensures
            e.wf(),
            e.planned() == effects_of(*action, base_dir@, author_id),
            e.next == 0,
            e.outcomes@.len() == 0,
    {
        Execution { plan: plan_effects(action, base_dir, author_id), next: 0, outcomes: Vec::new() }
    }

    /// The effect to attempt next, or nothing when every planned effect has
    /// been attempted.
    pub fn current(&self) -> (r: Option<&Effect>)
        ensures
            match r {
                Some(eff) => self.next < self.plan@.len() && *eff == self.plan@[self.next as int]
                    && Some((*eff)@) == self.current_value(),
                None => self.next >= self.plan@.len() && self.current_value() is None,
            },
    {
        if self.next < self.plan.len() {
            Some(&self.plan[self.next])
        } else {
            None
        }
    }

    /// Records the outcome of the current effect and moves to the next one.
    /// The machine advances the same way for a failure as for a success:
    /// a failed effect never aborts its siblings.
    pub fn record(&mut self, ok: bool)
        requires
            old(self).wf(),
            old(self).next < old(self).plan@.len(),
        ensures
            final(self).wf(),
            final(self).plan == old(self).plan,
            final(self).next == old(self).next + 1,
            final(self).outcomes@ == old(self).outcomes@.push(ok),
            final(self).attempted() == old(self).attempted().push(old(self).current_value()->0),
            final(self).remaining() == old(self).remaining().drop_first(),
    {
        let n = self.plan.len();
        self.next = self.next + 1;
        self.outcomes.push(ok);
        proof {
            assert(self.attempted() =~= old(self).attempted().push(old(self).current_value()->0));
            assert(self.remaining() =~= old(self).remaining().drop_first());
        }
    }

    /// Whether every planned effect has been attempted.
    pub fn finished(&self) -> (r: bool)
        ensures
            r == (self.next == self.plan@.len()),
    {
        self.next == self.plan.len()
    }

    /// Whether every attempted effect succeeded.
    pub fn all_succeeded(&self) -> (r: bool)
        ensures
            r == (forall|i: int| 0 <= i < self.outcomes@.len() ==> self.outcomes@[i]),
    {
        let mut i: usize = 0;
        while i < self.outcomes.len()
            invariant
                i <= self.outcomes@.len(),
                forall|j: int| 0 <= j < i ==> self.outcomes@[j],
            decreases self.outcomes@.len() - i,
        {
            if !self.outcomes[i] {
                return false;
            }
            i += 1;
        }
        true
    }
}

/// Whether an effect is a file-bearing send.
pub open spec fn is_file_send(e: EffectV) -> bool {
    e is SendFile
}

/// Whether an effect is a plain text send.
pub open spec fn is_text_send(e: EffectV) -> bool {
    e is SendText
}

proof fn lemma_filter_singleton<A>(x: A, pred: spec_fn(A) -> bool)
    ensures
        pred(x) ==> seq![x].filter(pred) == seq![x],
        !pred(x) ==> seq![x].filter(pred) == Seq::<A>::empty(),
{
    reveal(Seq::filter);
    assert(seq![x].drop_last() =~= Seq::<A>::empty());
    assert(Seq::<A>::empty().filter(pred) =~= Seq::<A>::empty());
    assert(seq![x].last() == x);
    if pred(x) {
        assert(seq![x].filter(pred) =~= seq![x]);
    } else {
        assert(seq![x].filter(pred) =~= Seq::<A>::empty());
    }
}

/// Action execution precedence: with a file set, the planned effects hold
/// exactly one file-bearing send, captioned by the message when one is set,
/// and the message text travels only as that caption — never as a separate
/// plain send; without a file, a set message yields exactly one plain send;
/// a set mention always yields exactly one further substituted send,
/// independent of the file and message sends.
pub proof fn lemma_action_precedence(a: Action, base_dir: Seq<char>, author_id: u64)
    ensures
        a.file is Some ==> effects_of(a, base_dir, author_id).filter(|e: EffectV| is_file_send(e))
            == seq![
            EffectV::SendFile { path: file_path_of(base_dir, a.file->0@), caption: opt_view(a.message) },
        ],
        a.file is None ==> effects_of(a, base_dir, author_id).filter(|e: EffectV| is_file_send(e))
            == Seq::<EffectV>::empty(),
        a.file is None && a.message is Some ==> effects_of(a, base_dir, author_id).filter(
            |e: EffectV| is_text_send(e),
        ) == seq![EffectV::SendText(a.message->0@)] + mention_effects(a, author_id),
        a.file is Some || a.message is None ==> effects_of(a, base_dir, author_id).filter(
            |e: EffectV| is_text_send(e),
        ) == mention_effects(a, author_id),
{
    reveal(Seq::filter);
    let fp = |e: EffectV| is_file_send(e);
    let tp = |e: EffectV| is_text_send(e);
    let em = emote_effects(a);
    let sends = send_effects(a, base_dir);
    let men = mention_effects(a, author_id);
    assert(effects_of(a, base_dir, author_id) == em + sends + men);
    Seq::filter_distributes_over_add(em + sends, men, fp);
    Seq::filter_distributes_over_add(em, sends, fp);
    Seq::filter_distributes_over_add(em + sends, men, tp);
    Seq::filter_distributes_over_add(em, sends, tp);
    assert forall|j: int| 0 <= j < em.len() implies !fp(em[j]) && !tp(em[j]) by {
        assert(em[j] == emote_effect(str_views(a.emotes->0@)[j]));
    }
    assert(em.all(|x: EffectV| !fp(x)));
    assert(em.all(|x: EffectV| !tp(x)));
    em.lemma_all_neg_filter_empty(fp);
    em.lemma_all_neg_filter_empty(tp);
    assert(em.filter(fp) =~= Seq::<EffectV>::empty());
    assert(em.filter(tp) =~= Seq::<EffectV>::empty());
    match a.mention {
        Some(t) => {
            let mt = EffectV::SendText(mention_text(t@, author_id));
            assert(men =~= seq![mt]);
            lemma_filter_singleton(mt, fp);
            lemma_filter_singleton(mt, tp);
            assert(men.filter(fp) =~= Seq::<EffectV>::empty());
            assert(men.filter(tp) == men);
        },
        None => {
            assert(men.filter(fp) =~= Seq::<EffectV>::empty());
            assert(men.filter(tp) =~= Seq::<EffectV>::empty());
            assert(men.filter(tp) =~= men);
        },
    }
    match a.file {
        Some(f) => {
            let sf = EffectV::SendFile {
                path: file_path_of(base_dir, f@),
                caption: opt_view(a.message),
            };
            assert(sends =~= seq![sf]);
            lemma_filter_singleton(sf, fp);
            lemma_filter_singleton(sf, tp);
            assert(effects_of(a, base_dir, author_id).filter(fp) =~= seq![sf]);
            assert(effects_of(a, base_dir, author_id).filter(tp) =~= men.filter(tp));
        },
        None => {
            match a.message {
                Some(m) => {
                    let st = EffectV::SendText(m@);
                    assert(sends =~= seq![st]);
                    lemma_filter_singleton(st, fp);
                    lemma_filter_singleton(st, tp);
                    assert(effects_of(a, base_dir, author_id).filter(fp)
                        =~= Seq::<EffectV>::empty());
                    assert(effects_of(a, base_dir, author_id).filter(tp) =~= seq![st] + men.filter(
                        tp,
                    ));
                },
                None => {
                    assert(sends =~= Seq::<EffectV>::empty());
                    assert(sends.filter(fp) =~= Seq::<EffectV>::empty());
                    assert(sends.filter(tp) =~= Seq::<EffectV>::empty());
                    assert(effects_of(a, base_dir, author_id).filter(fp)
                        =~= Seq::<EffectV>::empty());
                    assert(effects_of(a, base_dir, author_id).filter(tp) =~= men.filter(tp));
                },
            }
        },
    }
}

/// Partial-failure isolation: which effects an execution has attempted,
/// which effect comes next, and which effects are still to come depend only
/// on the plan and on how many outcomes were recorded — never on whether
/// those recorded outcomes were successes or failures.
pub proof fn lemma_partial_failure_isolation(e1: Execution, e2: Execution)
    requires
        e1.wf(),
        e2.wf(),
        e1.planned() == e2.planned(),
        e1.outcomes@.len() == e2.outcomes@.len(),
    ensures
        e1.attempted() == e2.attempted(),
        e1.current_value() == e2.current_value(),
        e1.remaining() == e2.remaining(),
{
}

} // verus!
