use ponyboy::relay::{chunk_reply, normalize_history, normalize_text, relay_reply, ChannelMessage};

fn msg(timestamp: &str, author: &str, text: &str) -> ChannelMessage {
    ChannelMessage {
        timestamp: timestamp.to_string(),
        author: author.to_string(),
        text: text.to_string(),
    }
}

#[test]
fn oversized_reply_chunks_to_at_most_1999_chars() {
    let reply: String = "x".repeat(4500);
    let chunks = chunk_reply(&reply);
    assert_eq!(chunks.len(), 3);
    assert_eq!(chunks[0].chars().count(), 1999);
    assert_eq!(chunks[1].chars().count(), 1999);
    assert_eq!(chunks[2].chars().count(), 502);
    assert_eq!(chunks.concat(), reply);
}

#[test]
fn chunking_boundaries_are_exact() {
    let fits: String = "y".repeat(2000);
    assert_eq!(chunk_reply(&fits), vec![fits.clone()]);
    let barely_over: String = "z".repeat(2001);
    let chunks = chunk_reply(&barely_over);
    assert_eq!(chunks.len(), 2);
    assert_eq!(chunks[0].chars().count(), 1999);
    assert_eq!(chunks[1].chars().count(), 2);
    assert_eq!(chunks.concat(), barely_over);
    let exact: String = "w".repeat(3998);
    let chunks = chunk_reply(&exact);
    assert_eq!(chunks.len(), 2);
    assert_eq!(chunks[0].chars().count(), 1999);
    assert_eq!(chunks[1].chars().count(), 1999);
    assert_eq!(chunks.concat(), exact);
}

#[test]
fn chunking_preserves_order_and_content() {
    let reply: String = (0..2500).map(|i| char::from(b'a' + (i % 26) as u8)).collect();
    let chunks = chunk_reply(&reply);
    assert_eq!(chunks.len(), 2);
    assert_eq!(chunks.concat(), reply);
    assert!(chunks.iter().all(|c| c.chars().count() <= 1999));
}

#[test]
fn short_reply_is_one_message() {
    assert_eq!(chunk_reply("hello"), vec!["hello".to_string()]);
    assert_eq!(chunk_reply(""), vec!["".to_string()]);
}

#[test]
fn backend_failure_sends_nothing() {
    let sends = relay_reply(Err("backend unreachable".to_string()));
    assert_eq!(sends, Vec::<String>::new());
}

#[test]
fn backend_success_relays_the_reply() {
    let sends = relay_reply(Ok("short answer".to_string()));
    assert_eq!(sends, vec!["short answer".to_string()]);
    let long: String = "a".repeat(4500);
    let sends = relay_reply(Ok(long.clone()));
    assert_eq!(sends.concat(), long);
    assert_eq!(sends.len(), 3);
}

#[test]
fn history_drops_empty_messages_and_normalizes_bot_references() {
    let history = normalize_history(
        &vec![
            msg("t1", "alice", "hi <@99>"),
            msg("t2", "bot", ""),
            msg("t3", "bob", "plain"),
        ],
        99,
        "ponyboy",
    );
    assert_eq!(history.len(), 2);
    assert_eq!(history[0].timestamp, "t1");
    assert_eq!(history[0].author, "alice");
    assert_eq!(history[0].text, "hi ponyboy");
    assert_eq!(history[1].timestamp, "t3");
    assert_eq!(history[1].author, "bob");
    assert_eq!(history[1].text, "plain");
}

#[test]
fn normalization_replaces_every_reference() {
    assert_eq!(normalize_text("<@7> and <@7>", 7, "bot"), "bot and bot");
    assert_eq!(normalize_text("<@7> and <@8>", 7, "bot"), "bot and <@8>");
    assert_eq!(normalize_text("untouched", 7, "bot"), "untouched");
    assert_eq!(normalize_text("", 7, "bot"), "");
}
