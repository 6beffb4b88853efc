use ponyboy::executor::{plan_effects, Effect, EmoteRef, Execution};
use ponyboy::rules::Action;

fn action(
    emotes: Option<Vec<&str>>,
    file: Option<&str>,
    message: Option<&str>,
    mention: Option<&str>,
) -> Action {
    Action {
        emotes: emotes.map(|es| es.iter().map(|e| e.to_string()).collect()),
        file: file.map(|s| s.to_string()),
        message: message.map(|s| s.to_string()),
        mention: mention.map(|s| s.to_string()),
    }
}

#[test]
fn message_without_file_sends_one_plain_message() {
    let plan = plan_effects(&action(None, None, Some("Hi there!"), None), "/base", 7);
    assert_eq!(plan, vec![Effect::SendText("Hi there!".to_string())]);
}

#[test]
fn file_with_message_sends_one_captioned_file_and_no_plain_duplicate() {
    let plan = plan_effects(&action(None, Some("pic.png"), Some("caption text"), None), "/base", 7);
    assert_eq!(
        plan,
        vec![Effect::SendFile {
            path: "/base/file_embeds/pic.png".to_string(),
            caption: Some("caption text".to_string()),
        }]
    );
}

#[test]
fn file_without_message_sends_one_uncaptioned_file() {
    let plan = plan_effects(&action(None, Some("pic.png"), None, None), "/base", 7);
    assert_eq!(
        plan,
        vec![Effect::SendFile { path: "/base/file_embeds/pic.png".to_string(), caption: None }]
    );
}

#[test]
fn mention_sends_one_substituted_message_alongside_the_rest() {
    let plan = plan_effects(
        &action(None, None, Some("text"), Some("hello @mention!")),
        "/base",
        1234,
    );
    assert_eq!(
        plan,
        vec![
            Effect::SendText("text".to_string()),
            Effect::SendText("hello <@1234>!".to_string()),
        ]
    );
    let plan = plan_effects(
        &action(None, Some("f.gif"), Some("cap"), Some("@mention @mention")),
        "/d",
        5,
    );
    assert_eq!(
        plan,
        vec![
            Effect::SendFile { path: "/d/file_embeds/f.gif".to_string(), caption: Some("cap".to_string()) },
            Effect::SendText("<@5> <@5>".to_string()),
        ]
    );
}

#[test]
fn emotes_come_first_and_classify_numeric_entries() {
    let plan = plan_effects(
        &action(Some(vec!["123456", "smile", "+7", "99999999999999999999"]), None, Some("m"), None),
        "/base",
        7,
    );
    assert_eq!(
        plan,
        vec![
            Effect::React(EmoteRef::Custom(123456)),
            Effect::React(EmoteRef::Unicode("smile".to_string())),
            Effect::React(EmoteRef::Custom(7)),
            Effect::React(EmoteRef::Unicode("99999999999999999999".to_string())),
            Effect::SendText("m".to_string()),
        ]
    );
}

#[test]
fn full_action_plans_in_fixed_precedence() {
    let plan = plan_effects(
        &action(Some(vec!["9"]), Some("f.png"), Some("cap"), Some("bye @mention")),
        "/b",
        3,
    );
    assert_eq!(
        plan,
        vec![
            Effect::React(EmoteRef::Custom(9)),
            Effect::SendFile { path: "/b/file_embeds/f.png".to_string(), caption: Some("cap".to_string()) },
            Effect::SendText("bye <@3>".to_string()),
        ]
    );
}

#[test]
fn empty_action_plans_nothing() {
    let plan = plan_effects(&action(None, None, None, None), "/base", 7);
    assert_eq!(plan, Vec::<Effect>::new());
}

#[test]
fn failed_effects_do_not_stop_later_ones() {
    let act = action(Some(vec!["1", "2"]), None, Some("msg"), Some("@mention"));
    let mut exec = Execution::start(&act, "/base", 9);
    let mut attempted: Vec<Effect> = Vec::new();
    let mut step: usize = 0;
    while let Some(effect) = exec.current() {
        attempted.push(effect.clone());
        // simulate a network failure of the first emote reaction
        exec.record(step != 0);
        step += 1;
    }
    assert!(exec.finished());
    assert!(!exec.all_succeeded());
    assert_eq!(attempted, plan_effects(&act, "/base", 9));
    assert_eq!(attempted.len(), 4);
}

#[test]
fn all_outcomes_recorded_in_plan_order() {
    let act = action(None, None, Some("msg"), None);
    let mut exec = Execution::start(&act, "/base", 9);
    assert!(!exec.finished());
    let first = exec.current().unwrap().clone();
    assert_eq!(first, Effect::SendText("msg".to_string()));
    exec.record(true);
    assert!(exec.finished());
    assert!(exec.all_succeeded());
    assert!(exec.current().is_none());
}
