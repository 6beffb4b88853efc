use ponyboy::rules::{validate_rule, validate_rules, Action, ConfigError, RuleConfig, Triggers};

fn plain_action() -> Action {
    Action { emotes: None, file: None, message: Some("hi".to_string()), mention: None }
}

fn valid_config() -> RuleConfig {
    RuleConfig {
        name: Some("greet".to_string()),
        keywords: Some(vec!["hello".to_string()]),
        triggers: Some(vec!["keyword".to_string()]),
        mentioned_user: None,
        actions: Some(vec![plain_action()]),
    }
}

#[test]
fn valid_config_builds_the_rule() {
    let rule = validate_rule(valid_config()).unwrap();
    assert_eq!(rule.name, "greet");
    assert_eq!(rule.keywords, vec!["hello".to_string()]);
    assert_eq!(rule.triggers, Triggers { keyword: true, mention: false });
    assert_eq!(rule.mentioned_user, None);
    assert_eq!(rule.actions, vec![plain_action()]);
}

#[test]
fn mention_trigger_carries_over() {
    let mut cfg = valid_config();
    cfg.triggers = Some(vec!["keyword".to_string(), "mention".to_string()]);
    cfg.mentioned_user = Some(9);
    let rule = validate_rule(cfg).unwrap();
    assert_eq!(rule.triggers, Triggers { keyword: true, mention: true });
    assert_eq!(rule.mentioned_user, Some(9));
}

#[test]
fn missing_name_is_rejected() {
    let mut cfg = valid_config();
    cfg.name = None;
    assert_eq!(validate_rule(cfg), Err(ConfigError::MissingName));
}

#[test]
fn missing_triggers_are_rejected() {
    let mut cfg = valid_config();
    cfg.triggers = None;
    assert_eq!(validate_rule(cfg), Err(ConfigError::MissingTriggers));
}

#[test]
fn unknown_trigger_word_is_rejected() {
    let mut cfg = valid_config();
    cfg.triggers = Some(vec!["keyword".to_string(), "reaction".to_string()]);
    assert_eq!(validate_rule(cfg), Err(ConfigError::UnknownTrigger));
}

#[test]
fn mention_trigger_without_user_is_rejected() {
    let mut cfg = valid_config();
    cfg.triggers = Some(vec!["mention".to_string()]);
    cfg.mentioned_user = None;
    assert_eq!(validate_rule(cfg), Err(ConfigError::MentionTriggerWithoutUser));
}

#[test]
fn keyword_trigger_without_keywords_is_rejected() {
    let mut cfg = valid_config();
    cfg.keywords = None;
    assert_eq!(validate_rule(cfg), Err(ConfigError::KeywordTriggerWithoutKeywords));
    let mut cfg = valid_config();
    cfg.keywords = Some(Vec::new());
    assert_eq!(validate_rule(cfg), Err(ConfigError::KeywordTriggerWithoutKeywords));
}

#[test]
fn keywords_optional_without_keyword_trigger() {
    let mut cfg = valid_config();
    cfg.triggers = Some(vec!["mention".to_string()]);
    cfg.mentioned_user = Some(3);
    cfg.keywords = None;
    let rule = validate_rule(cfg).unwrap();
    assert_eq!(rule.keywords, Vec::<String>::new());
}

#[test]
fn missing_actions_are_rejected() {
    let mut cfg = valid_config();
    cfg.actions = None;
    assert_eq!(validate_rule(cfg), Err(ConfigError::MissingActions));
    let mut cfg = valid_config();
    cfg.actions = Some(Vec::new());
    assert_eq!(validate_rule(cfg), Err(ConfigError::EmptyActions));
}

#[test]
fn first_failed_check_wins() {
    let cfg = RuleConfig {
        name: None,
        keywords: None,
        triggers: None,
        mentioned_user: None,
        actions: None,
    };
    assert_eq!(validate_rule(cfg), Err(ConfigError::MissingName));
}

#[test]
fn whole_configuration_validates_in_order() {
    let good = valid_config();
    let mut bad = valid_config();
    bad.actions = None;
    let rules = validate_rules(vec![good.clone(), good.clone()]).unwrap();
    assert_eq!(rules.len(), 2);
    let err = validate_rules(vec![good.clone(), bad, valid_config()]).unwrap_err();
    assert_eq!(err, ConfigError::MissingActions);
    assert_eq!(validate_rules(Vec::new()).unwrap(), Vec::new());
}
