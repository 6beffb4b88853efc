//! The direct-address path: normalizing recent channel history into a
//! transcript for the completion backend, and relaying the backend's reply,
//! split into protocol-sized chunks when it is oversized.

use vstd::prelude::*;
use crate::text::from_chars;
use crate::text::mention_reference;
use crate::text::mention_token;
use crate::text::replace_all;
use crate::text::replace_all_spec;
use crate::text::to_chars;

verus! {

/// The outbound protocol's maximum message length, in characters.
pub const MAX_MESSAGE_CHARS: usize = 2000;

/// The length of each full chunk of an oversized reply.
pub const CHUNK_CHARS: usize = 1999;

/// A prior channel message, as handed over from the platform: when it was
/// sent, who wrote it, and its text.
#[derive(Clone, Debug, PartialEq)]
pub struct ChannelMessage {
    pub timestamp: String,
    pub author: String,
    pub text: String,
}

/// A normalized transcript entry fed to the completion backend.
#[derive(Clone, Debug, PartialEq)]
pub struct TranscriptEntry {
    pub timestamp: String,
    pub author: String,
    pub text: String,
}

/// The value of a channel message.
pub open spec fn message_view(m: ChannelMessage) -> (Seq<char>, Seq<char>, Seq<char>) {
    (m.timestamp@, m.author@, m.text@)
}

/// The value of a transcript entry.
pub open spec fn entry_view(e: TranscriptEntry) -> (Seq<char>, Seq<char>, Seq<char>) {
    (e.timestamp@, e.author@, e.text@)
}

/// Message text with every textual reference to the bot replaced by the
/// bot's display name.
pub open spec fn normalized_text(text: Seq<char>, bot_id: u64, bot_name: Seq<char>) -> Seq<char> {
    replace_all_spec(text, mention_token(bot_id), bot_name)
}

/// How one prior message reads into the transcript: dropped when it has no
/// content, else kept with its text normalized.
pub open spec fn history_step(bot_id: u64, bot_name: Seq<char>) -> spec_fn(
    (Seq<char>, Seq<char>, Seq<char>),
) -> Option<(Seq<char>, Seq<char>, Seq<char>)> {
    |m: (Seq<char>, Seq<char>, Seq<char>)|
        if m.2.len() == 0 {
            None
        } else {
            Some((m.0, m.1, normalized_text(m.2, bot_id, bot_name)))
        }
}

/// The transcript read from a list of prior messages: messages without
/// content are dropped, and each kept message is normalized.
pub open spec fn history_of(
    msgs: Seq<(Seq<char>, Seq<char>, Seq<char>)>,
    bot_id: u64,
    bot_name: Seq<char>,
) -> Seq<(Seq<char>, Seq<char>, Seq<char>)> {
    msgs.filter_map(history_step(bot_id, bot_name))
}

/// Replaces every textual reference to the bot in `text` by the bot's
/// display name.
pub fn normalize_text(text: &str, bot_id: u64, bot_name: &str) -> (r: String)
    ensures
        r@ == normalized_text(text@, bot_id, bot_name@),
{
    let chars = to_chars(text);
    let token = mention_reference(bot_id);
    let name = to_chars(bot_name);
    assert(token@.len() > 0);
    let replaced = replace_all(&chars, &token, &name);
    from_chars(&replaced)
}

/// Builds the transcript for the completion backend from the prior channel
/// messages, oldest first: drops messages without content and normalizes
/// each kept text.
pub fn normalize_history(messages: &Vec<ChannelMessage>, bot_id: u64, bot_name: &str) -> (r: Vec<
    TranscriptEntry,
>)
    ensures
        r@.map_values(|e: TranscriptEntry| entry_view(e)) == history_of(
            messages@.map_values(|m: ChannelMessage| message_view(m)),
            bot_id,
            bot_name@,
        ),
{
    broadcast use vstd::prelude::Seq::lemma_filter_map_take_succ;

    let ghost msgs_v = messages@.map_values(|m: ChannelMessage| message_view(m));
    let mut out: Vec<TranscriptEntry> = Vec::new();
    let mut i: usize = 0;
    proof {
        assert(msgs_v.take(0) =~= Seq::<(Seq<char>, Seq<char>, Seq<char>)>::empty());
        assert(history_of(msgs_v.take(0), bot_id, bot_name@)
            =~= Seq::<(Seq<char>, Seq<char>, Seq<char>)>::empty());
    }
    while i < messages.len()
        invariant
            i <= messages@.len(),
            msgs_v == messages@.map_values(|m: ChannelMessage| message_view(m)),
            msgs_v.len() == messages@.len(),
            out@.map_values(|e: TranscriptEntry| entry_view(e)) == history_of(
                msgs_v.take(i as int),
                bot_id,
                bot_name@,
            ),
        decreases messages@.len() - i,
    {
        let m = &messages[i];
        let ghost prev = out@;
        if m.text.as_str().unicode_len() > 0 {
            let entry = TranscriptEntry {
                timestamp: m.timestamp.clone(),
                author: m.author.clone(),
                text: normalize_text(m.text.as_str(), bot_id, bot_name),
            };
            assert(entry_view(entry) == (
                msgs_v[i as int].0,
                msgs_v[i as int].1,
                normalized_text(msgs_v[i as int].2, bot_id, bot_name@),
            ));
            out.push(entry);
        }
        i += 1;
        proof {
            let f = history_step(bot_id, bot_name@);
            msgs_v.lemma_filter_map_take_succ(f, i - 1);
            if msgs_v[i - 1].2.len() != 0 {
                assert(out@.drop_last() == prev);
            }
            assert(out@.map_values(|e: TranscriptEntry| entry_view(e)) =~= history_of(
                msgs_v.take(i as int),
                bot_id,
                bot_name@,
            ));
        }
    }
    proof {
        assert(msgs_v.take(i as int) =~= msgs_v);
    }
    out
}

/// How an oversized text splits: full chunks of `k` characters, in order,
/// then whatever remains.
pub open spec fn chunks_of(s: Seq<char>, k: int) -> Seq<Seq<char>>
    decreases s.len(),
    when k > 0
{
    if s.len() <= k {
        seq![s]
    } else {
        seq![s.take(k)] + chunks_of(s.skip(k), k)
    }
}

/// The messages that relay a generated reply: the reply itself when it fits
/// the protocol's maximum length, else chunks of at most `CHUNK_CHARS`
/// characters, in order.
pub open spec fn reply_chunks(s: Seq<char>) -> Seq<Seq<char>> {
    if s.len() <= MAX_MESSAGE_CHARS {
        seq![s]
    } else {
        chunks_of(s, CHUNK_CHARS as int)
    }
}

proof fn lemma_chunks_of(s: Seq<char>, k: int)
    requires
        k > 0,
    ensures
        chunks_of(s, k).len() >= 1,
        chunks_of(s, k).flatten() == s,
        forall|i: int| 0 <= i < chunks_of(s, k).len() ==> (#[trigger] chunks_of(s, k)[i]).len()
            <= k,
        forall|i: int| 0 <= i < chunks_of(s, k).len() - 1 ==> (#[trigger] chunks_of(s, k)[i]).len()
            == k,
        s.len() > 0 ==> forall|i: int|
            0 <= i < chunks_of(s, k).len() ==> (#[trigger] chunks_of(s, k)[i]).len() > 0,
    decreases s.len(),
{
    if s.len() <= k {
        assert(chunks_of(s, k) == seq![s]);
        seq![s].lemma_flatten_one_element();
        assert(chunks_of(s, k).flatten() == s);
    } else {
        let rest = chunks_of(s.skip(k), k);
        lemma_chunks_of(s.skip(k), k);
        let all = chunks_of(s, k);
        assert(all == seq![s.take(k)] + rest);
        assert(all.first() == s.take(k));
        assert(all.drop_first() =~= rest);
        assert(all.flatten() == s.take(k) + rest.flatten());
        assert(s.take(k) + s.skip(k) =~= s);
        assert forall|i: int| 0 <= i < all.len() - 1 implies (#[trigger] all[i]).len() == k by {
            if i > 0 {
                assert(all[i] == rest[i - 1]);
            }
        }
        assert forall|i: int| 0 <= i < all.len() implies (#[trigger] all[i]).len() <= k by {
            if i > 0 {
                assert(all[i] == rest[i - 1]);
            }
        }
        assert forall|i: int| 0 <= i < all.len() implies (#[trigger] all[i]).len() > 0 by {
            if i > 0 {
                assert(all[i] == rest[i - 1]);
            }
        }
    }
}

/// Oversized-reply chunking: the relayed messages concatenate back to the
/// reply exactly, each fits the protocol's maximum length, a reply over
/// that length splits into full chunks with only the last one shorter, and
/// no relayed chunk of an oversized reply is empty.
pub proof fn lemma_reply_chunking(s: Seq<char>)
    ensures
        reply_chunks(s).len() >= 1,
        reply_chunks(s).flatten() == s,
        s.len() <= MAX_MESSAGE_CHARS ==> reply_chunks(s) == seq![s],
        forall|i: int| 0 <= i < reply_chunks(s).len() ==> (#[trigger] reply_chunks(s)[i]).len()
            <= MAX_MESSAGE_CHARS,
        s.len() > MAX_MESSAGE_CHARS ==> forall|i: int|
            0 <= i < reply_chunks(s).len() ==> 0 < (#[trigger] reply_chunks(s)[i]).len()
                <= CHUNK_CHARS,
        s.len() > MAX_MESSAGE_CHARS ==> forall|i: int|
            0 <= i < reply_chunks(s).len() - 1 ==> (#[trigger] reply_chunks(s)[i]).len()
                == CHUNK_CHARS,
{
    if s.len() <= MAX_MESSAGE_CHARS {
        seq![s].lemma_flatten_one_element();
    } else {
        lemma_chunks_of(s, CHUNK_CHARS as int);
    }
}

/// The characters of `v` between `from` and `to`.
fn sub_chars(v: &Vec<char>, from: usize, to: usize) -> (r: Vec<char>)
    requires
        from <= to <= v@.len(),
    ensures
        r@ == v@.subrange(from as int, to as int),
{
    let mut r: Vec<char> = Vec::new();
    let mut i: usize = from;
    while i < to
        invariant
            from <= i <= to <= v@.len(),
            r@ =~= v@.subrange(from as int, i as int),
        decreases to - i,
    {
        r.push(v[i]);
        i += 1;
        assert(r@ =~= v@.subrange(from as int, i as int));
    }
    r
}

/// Splits a generated reply into the messages that relay it: the reply
/// itself when it fits the protocol's maximum length, else maximal chunks
/// of at most `CHUNK_CHARS` characters, in order, losing and duplicating
/// nothing.
pub fn chunk_reply(reply: &str) -> (r: Vec<String>)
    ensures
        r@.map_values(|c: String| c@) == reply_chunks(reply@),
{
    let chars = to_chars(reply);
    let mut out: Vec<String> = Vec::new();
    if chars.len() <= MAX_MESSAGE_CHARS {
        out.push(from_chars(&chars));
        assert(out@.map_values(|c: String| c@) =~= reply_chunks(reply@));
        return out;
    }
    let n = chars.len();
    let mut pos: usize = 0;
    proof {
        assert(chars@.skip(0) =~= chars@);
        assert(out@.map_values(|c: String| c@) =~= Seq::<Seq<char>>::empty());
        assert(Seq::<Seq<char>>::empty() + chunks_of(chars@, CHUNK_CHARS as int) =~= chunks_of(
            chars@,
            CHUNK_CHARS as int,
        ));
    }
    while n - pos > CHUNK_CHARS
        invariant
            pos <= n == chars@.len(),
            chars@ == reply@,
            n > MAX_MESSAGE_CHARS,
            reply_chunks(reply@) =~= out@.map_values(|c: String| c@) + chunks_of(
                chars@.skip(pos as int),
                CHUNK_CHARS as int,
            ),
        decreases n - pos,
    {
        let chunk = sub_chars(&chars, pos, pos + CHUNK_CHARS);
        let ghost prev = out@;
        out.push(from_chars(&chunk));
        proof {
            let rest = chars@.skip(pos as int);
            assert(rest.take(CHUNK_CHARS as int) =~= chars@.subrange(
                pos as int,
                pos + CHUNK_CHARS,
            ));
            assert(rest.skip(CHUNK_CHARS as int) =~= chars@.skip(pos + CHUNK_CHARS));
            assert(out@.map_values(|c: String| c@) =~= prev.map_values(|c: String| c@) + seq![
                chars@.subrange(pos as int, pos + CHUNK_CHARS),
            ]);
            assert(reply_chunks(reply@) =~= out@.map_values(|c: String| c@) + chunks_of(
                chars@.skip(pos + CHUNK_CHARS),
                CHUNK_CHARS as int,
            ));
        }
        pos = pos + CHUNK_CHARS;
    }
    let chunk = sub_chars(&chars, pos, n);
    let ghost prev = out@;
    out.push(from_chars(&chunk));
    proof {
        let rest = chars@.skip(pos as int);
        assert(rest =~= chars@.subrange(pos as int, n as int));
        assert(chunks_of(rest, CHUNK_CHARS as int) == seq![rest]);
        assert(out@.map_values(|c: String| c@) =~= prev.map_values(|c: String| c@) + seq![rest]);
        assert(out@.map_values(|c: String| c@) =~= reply_chunks(reply@));
    }
    out
}

/// The messages to send for one direct-address event, given what the
/// completion backend returned: the chunked reply on success, and nothing
/// at all on failure — a failed backend call drops the event without any
/// outbound message.
pub fn relay_reply(backend_result: Result<String, String>) -> (r: Vec<String>)
    ensures
        match backend_result {
            Ok(reply) => r@.map_values(|c: String| c@) == reply_chunks(reply@),
            Err(_) => r@.len() == 0,
        },
{
    match backend_result {
        Ok(reply) => chunk_reply(reply.as_str()),
        Err(_) => Vec::new(),
    }
}

} // verus!
