use ponyboy::matcher::{find_word, matching_rules, IncomingMessage};
use ponyboy::rules::{Action, Rule, Triggers};
use ponyboy::text::to_chars;

fn message(text: &str) -> IncomingMessage {
    IncomingMessage {
        text: text.to_string(),
        author_id: 11,
        author_name: "alice".to_string(),
        mentions: Vec::new(),
    }
}

fn keyword_rule(keywords: &[&str]) -> Rule {
    Rule {
        name: "r".to_string(),
        keywords: keywords.iter().map(|k| k.to_string()).collect(),
        triggers: Triggers { keyword: true, mention: false },
        mentioned_user: None,
        actions: vec![Action { emotes: None, file: None, message: Some("ok".to_string()), mention: None }],
    }
}

fn contains_word(text: &str, kw: &str) -> bool {
    find_word(&to_chars(text), &to_chars(kw))
}

#[test]
fn word_bounded_occurrences_match() {
    assert!(contains_word("a cat sat", "cat"));
    assert!(contains_word("cat?", "cat"));
    assert!(contains_word("cat.", "cat"));
    assert!(contains_word("cat,", "cat"));
    assert!(contains_word("cat's toy", "cat"));
    assert!(contains_word("cat", "cat"));
    assert!(contains_word("the cat", "cat"));
    assert!(contains_word("cat ran", "cat"));
}

#[test]
fn substring_occurrences_do_not_match() {
    assert!(!contains_word("category", "cat"));
    assert!(!contains_word("a category error", "cat"));
    assert!(!contains_word("concat", "cat"));
    assert!(!contains_word("scatter", "cat"));
    assert!(!contains_word("cat!", "cat"));
}

#[test]
fn matching_is_case_sensitive() {
    assert!(!contains_word("a Cat sat", "cat"));
    assert!(!contains_word("a cat sat", "Cat"));
}

#[test]
fn keyword_rule_matches_message() {
    let rule = keyword_rule(&["hello"]);
    assert!(ponyboy::matcher::matches(&rule, &message("hello world")));
    assert!(!ponyboy::matcher::matches(&rule, &message("shello")));
    assert!(!ponyboy::matcher::matches(&rule, &message("othello world")));
}

#[test]
fn any_keyword_of_the_rule_matches() {
    let rule = keyword_rule(&["hi", "hey"]);
    assert!(ponyboy::matcher::matches(&rule, &message("hey there")));
    assert!(ponyboy::matcher::matches(&rule, &message("hi there")));
    assert!(!ponyboy::matcher::matches(&rule, &message("hello there")));
}

#[test]
fn rule_without_keywords_never_keyword_matches() {
    let mut rule = keyword_rule(&[]);
    rule.triggers = Triggers { keyword: false, mention: false };
    assert!(!ponyboy::matcher::matches(&rule, &message("anything at all")));
    assert!(!ponyboy::matcher::matches(&rule, &message("")));
}

#[test]
fn mention_trigger_matches_mentioned_user() {
    let rule = Rule {
        name: "m".to_string(),
        keywords: Vec::new(),
        triggers: Triggers { keyword: false, mention: true },
        mentioned_user: Some(42),
        actions: vec![Action { emotes: None, file: None, message: Some("ok".to_string()), mention: None }],
    };
    let mut msg = message("no keywords here");
    assert!(!ponyboy::matcher::matches(&rule, &msg));
    msg.mentions = vec![7, 42];
    assert!(ponyboy::matcher::matches(&rule, &msg));
    msg.mentions = vec![7, 9];
    assert!(!ponyboy::matcher::matches(&rule, &msg));
}

#[test]
fn either_active_trigger_suffices() {
    let rule = Rule {
        name: "both".to_string(),
        keywords: vec!["ping".to_string()],
        triggers: Triggers { keyword: true, mention: true },
        mentioned_user: Some(5),
        actions: vec![Action { emotes: None, file: None, message: Some("ok".to_string()), mention: None }],
    };
    let mut by_keyword = message("ping me");
    assert!(ponyboy::matcher::matches(&rule, &by_keyword));
    by_keyword.text = "nothing".to_string();
    assert!(!ponyboy::matcher::matches(&rule, &by_keyword));
    by_keyword.mentions = vec![5];
    assert!(ponyboy::matcher::matches(&rule, &by_keyword));
}

#[test]
fn every_rule_is_evaluated_independently() {
    let rules = vec![keyword_rule(&["cat"]), keyword_rule(&["dog"]), keyword_rule(&["cat", "dog"])];
    let hits = matching_rules(&rules, &message("the cat and the dog"));
    assert_eq!(hits, vec![0, 1, 2]);
    let hits = matching_rules(&rules, &message("the dog alone"));
    assert_eq!(hits, vec![1, 2]);
    let hits = matching_rules(&rules, &message("nothing"));
    assert_eq!(hits, Vec::<usize>::new());
}
