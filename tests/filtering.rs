use saferenv::filter::{
    apply_env_var_filters, check_rules, decide, fates_for_names, first_matching_action, Config, Fate, FilterError,
};
use saferenv::rules::{anchored_pattern, load_rules, Rule, RuleAction};

fn env_of(pairs: &[(&str, &str)]) -> Vec<(String, String)> {
    pairs.iter().map(|(k, v)| (k.to_string(), v.to_string())).collect()
}

fn names(list: &[&str]) -> Vec<String> {
    list.iter().map(|s| s.to_string()).collect()
}

fn config(rules: Vec<Rule>) -> Config {
    Config { rules, redact_value: String::from("[REDACTED]") }
}

fn value_of<'a>(env: &'a [(String, String)], key: &str) -> Option<&'a str> {
    env.iter().find(|(k, _)| k == key).map(|(_, v)| v.as_str())
}

fn sample_env() -> Vec<(String, String)> {
    env_of(&[
        ("HOME", "/home/user"),
        ("SHELL", "/bin/bash"),
        ("PATH", "/usr/bin:/bin"),
        ("GITHUB_TOKEN", "ghp_x"),
        ("LANG", "en_US.UTF-8"),
    ])
}

#[test]
fn test_ignore_environment() {
    let mut env = sample_env();
    env.push(("MY_REDACTED_TOKEN".to_string(), "blahblah".to_string()));
    let config = config(Vec::new());
    assert_eq!(apply_env_var_filters(&config, true, &mut env), Ok(()));
    assert_eq!(env.len(), 0);
}

#[test]
fn test_ignore_environment_with_set() {
    let mut env = sample_env();
    let check_key = "SHELL";
    assert!(env.iter().any(|(k, _)| k == check_key));
    let key_value = value_of(&env, check_key).unwrap().to_string();
    let keep = names(&[check_key]);
    let rules = load_rules(&keep, &vec![]);
    let config = config(rules);
    assert_eq!(apply_env_var_filters(&config, true, &mut env), Ok(()));
    assert_eq!(env.len(), 1);
    assert_eq!(value_of(&env, check_key).unwrap(), key_value);
}

#[test]
fn test_default_generic_rules() {
    let mut env = sample_env();
    for k in ["MY_TOKEN", "MY-TOKEN", "MY_SECRET", "MY-SECRET", "MY_KEY", "MY-KEY"] {
        env.push((k.to_string(), "secretvalue".to_string()));
    }
    let rules = load_rules(&vec![], &vec![]);
    let config = config(rules);
    assert_eq!(apply_env_var_filters(&config, false, &mut env), Ok(()));
    assert!(value_of(&env, "MY_TOKEN").unwrap() == "[REDACTED]");
    assert!(value_of(&env, "MY-TOKEN").unwrap() == "[REDACTED]");
    assert!(value_of(&env, "MY_SECRET").unwrap() == "[REDACTED]");
    assert!(value_of(&env, "MY-SECRET").unwrap() == "[REDACTED]");
    assert!(value_of(&env, "MY_KEY").unwrap() == "[REDACTED]");
    assert!(value_of(&env, "MY-KEY").unwrap() == "[REDACTED]");
}

#[test]
fn rule_set_order_and_defaults() {
    let rules = load_rules(&names(&["A", "B"]), &names(&["C"]));
    assert_eq!(rules.len(), 8);
    assert_eq!(rules[0].pattern, "^A$");
    assert_eq!(rules[0].action, RuleAction::Keep);
    assert_eq!(rules[0].name, "cli_explicit_keep");
    assert_eq!(rules[1].pattern, "^B$");
    assert_eq!(rules[2].pattern, "^C$");
    assert_eq!(rules[2].action, RuleAction::Unset);
    assert_eq!(rules[2].name, "cli_explicit_unset");
    let defaults: Vec<&str> = rules[3..].iter().map(|r| r.pattern.as_str()).collect();
    assert_eq!(defaults, vec!["SECRETS?$", "TOKENS?$", "KEYS?$", "PASSWORDS?$", "(_|-)PW$"]);
    assert!(rules[3..].iter().all(|r| r.action == RuleAction::Redact));
    assert_eq!(rules[7].name, "generic_password_short");
}

#[test]
fn explicit_names_are_escaped() {
    assert_eq!(anchored_pattern("FOO.BAR"), "^FOO\\.BAR$");
    assert_eq!(anchored_pattern("A-B"), "^A\\-B$");
    assert_eq!(anchored_pattern("PLAIN"), "^PLAIN$");
    let rules = load_rules(&names(&["FOO.BAR"]), &vec![]);
    let mut env = env_of(&[("FOOXBAR", "1"), ("FOO.BAR", "2"), ("OTHER", "3")]);
    assert_eq!(apply_env_var_filters(&config(rules), true, &mut env), Ok(()));
    assert_eq!(env, env_of(&[("FOO.BAR", "2")]));
}

#[test]
fn keep_is_idempotent() {
    let rules = load_rules(&names(&["API_TOKEN"]), &vec![]);
    let config = config(rules);
    let mut env = env_of(&[("API_TOKEN", "t1"), ("DB_PASSWORD", "pw"), ("HOME", "/h")]);
    assert_eq!(apply_env_var_filters(&config, false, &mut env), Ok(()));
    let once = env.clone();
    assert_eq!(apply_env_var_filters(&config, false, &mut env), Ok(()));
    assert_eq!(env, once);
    assert_eq!(value_of(&env, "API_TOKEN"), Some("t1"));
    assert_eq!(value_of(&env, "DB_PASSWORD"), Some("[REDACTED]"));
}

#[test]
fn explicit_keep_takes_precedence() {
    let rules = load_rules(&names(&["FOO_SECRET"]), &vec![]);
    let mut env = env_of(&[("FOO_SECRET", "s3"), ("BAR_SECRET", "s4")]);
    assert_eq!(apply_env_var_filters(&config(rules), false, &mut env), Ok(()));
    assert_eq!(env, env_of(&[("FOO_SECRET", "s3"), ("BAR_SECRET", "[REDACTED]")]));
}

#[test]
fn ignore_environment_wipes_unmatched_and_redacted() {
    let rules = load_rules(&vec![], &vec![]);
    let mut env = env_of(&[("HOME", "/h"), ("MY_API_KEY", "abc123"), ("X_PW", "p")]);
    assert_eq!(apply_env_var_filters(&config(rules), true, &mut env), Ok(()));
    assert!(env.is_empty());
}

#[test]
fn redaction_keeps_name() {
    let rules = load_rules(&vec![], &vec![]);
    let mut env = env_of(&[("MY_API_KEY", "abc123")]);
    assert_eq!(apply_env_var_filters(&config(rules), false, &mut env), Ok(()));
    assert_eq!(env, env_of(&[("MY_API_KEY", "[REDACTED]")]));
}

#[test]
fn redaction_uses_configured_value() {
    let rules = load_rules(&vec![], &vec![]);
    let config = Config { rules, redact_value: String::from("***") };
    let mut env = env_of(&[("MY_API_KEY", "abc123"), ("user_password", "x"), ("ADMIN-PW", "y")]);
    assert_eq!(apply_env_var_filters(&config, false, &mut env), Ok(()));
    assert_eq!(env, env_of(&[("MY_API_KEY", "***"), ("user_password", "***"), ("ADMIN-PW", "***")]));
}

#[test]
fn explicit_unset_removes() {
    let rules = load_rules(&vec![], &names(&["SHELL", "GITHUB_TOKEN"]));
    let mut env = sample_env();
    assert_eq!(apply_env_var_filters(&config(rules), false, &mut env), Ok(()));
    assert_eq!(value_of(&env, "SHELL"), None);
    assert_eq!(value_of(&env, "GITHUB_TOKEN"), None);
    assert_eq!(value_of(&env, "HOME"), Some("/home/user"));
    assert_eq!(env.len(), 3);
}

#[test]
fn keep_wins_over_unset() {
    let rules = load_rules(&names(&["SHELL"]), &names(&["SHELL"]));
    let mut env = env_of(&[("SHELL", "/bin/zsh")]);
    assert_eq!(apply_env_var_filters(&config(rules), false, &mut env), Ok(()));
    assert_eq!(env, env_of(&[("SHELL", "/bin/zsh")]));
}

#[test]
fn explicit_names_are_anchored() {
    let rules = load_rules(&names(&["TOKEN"]), &vec![]);
    let mut env = env_of(&[("TOKEN", "a"), ("MY_TOKEN", "b"), ("TOKENS", "c"), ("token", "d")]);
    assert_eq!(apply_env_var_filters(&config(rules), false, &mut env), Ok(()));
    assert_eq!(
        env,
        env_of(&[
            ("TOKEN", "a"),
            ("MY_TOKEN", "[REDACTED]"),
            ("TOKENS", "[REDACTED]"),
            ("token", "d"),
        ])
    );
}

#[test]
fn removal_does_not_disturb_later_names() {
    let rules = load_rules(&vec![], &names(&["A"]));
    let config = config(rules);
    let mut whole = env_of(&[("A", "1"), ("B_TOKEN", "2"), ("C", "3")]);
    assert_eq!(apply_env_var_filters(&config, false, &mut whole), Ok(()));
    let mut first = env_of(&[("A", "1")]);
    let mut rest = env_of(&[("B_TOKEN", "2"), ("C", "3")]);
    assert_eq!(apply_env_var_filters(&config, false, &mut first), Ok(()));
    assert_eq!(apply_env_var_filters(&config, false, &mut rest), Ok(()));
    first.extend(rest);
    assert_eq!(whole, first);
    assert_eq!(whole, env_of(&[("B_TOKEN", "[REDACTED]"), ("C", "3")]));
}

#[test]
fn end_to_end_scenario() {
    let rules = load_rules(&vec![], &names(&["LOG_LEVEL"]));
    let mut env = env_of(&[("API_TOKEN", "t1"), ("SHELL", "/bin/bash"), ("LOG_LEVEL", "debug")]);
    assert_eq!(apply_env_var_filters(&config(rules), false, &mut env), Ok(()));
    assert_eq!(env, env_of(&[("API_TOKEN", "[REDACTED]"), ("SHELL", "/bin/bash")]));
}

#[test]
fn empty_environment_stays_empty() {
    let rules = load_rules(&names(&["A"]), &names(&["B"]));
    let mut env: Vec<(String, String)> = Vec::new();
    assert_eq!(apply_env_var_filters(&config(rules), true, &mut env), Ok(()));
    assert!(env.is_empty());
}

#[test]
fn invalid_pattern_is_reported_and_changes_nothing() {
    let bad = Rule { name: String::from("bad"), pattern: String::from("(unclosed"), action: RuleAction::Keep };
    let good = Rule { name: String::from("good"), pattern: String::from("^X$"), action: RuleAction::Unset };
    let config = config(vec![good.clone(), bad.clone(), bad]);
    let mut env = env_of(&[("X", "1"), ("Y", "2")]);
    assert_eq!(apply_env_var_filters(&config, true, &mut env), Err(FilterError::InvalidPattern(1)));
    assert_eq!(env, env_of(&[("X", "1"), ("Y", "2")]));
    assert_eq!(check_rules(&vec![good]), Ok(()));
}

#[test]
fn fates_of_actions() {
    assert_eq!(decide(Some(RuleAction::Keep), true), Fate::Unchanged);
    assert_eq!(decide(Some(RuleAction::Redact), false), Fate::Redacted);
    assert_eq!(decide(Some(RuleAction::Redact), true), Fate::Removed);
    assert_eq!(decide(Some(RuleAction::Unset), false), Fate::Removed);
    assert_eq!(decide(None, false), Fate::Unchanged);
    assert_eq!(decide(None, true), Fate::Removed);
}

#[test]
fn first_match_is_case_insensitive_and_ordered() {
    let rules = load_rules(&names(&["db_password"]), &names(&["Session_Key"]));
    assert_eq!(first_matching_action(&rules, "DB_PASSWORD"), Some(RuleAction::Keep));
    assert_eq!(first_matching_action(&rules, "session_key"), Some(RuleAction::Unset));
    assert_eq!(first_matching_action(&rules, "aws_secrets"), Some(RuleAction::Redact));
    assert_eq!(first_matching_action(&rules, "my_pw"), Some(RuleAction::Redact));
    assert_eq!(first_matching_action(&rules, "PWD"), None);
    assert_eq!(first_matching_action(&rules, "KEYBOARD"), None);
}

#[test]
fn fates_follow_snapshot_order() {
    let rules = load_rules(&names(&["KEEP_ME_TOKEN"]), &names(&["PATH"]));
    let config = config(rules);
    let snapshot = names(&["KEEP_ME_TOKEN", "PATH", "NPM_TOKEN", "HOME"]);
    assert_eq!(
        fates_for_names(&config, false, &snapshot),
        Ok(vec![Fate::Unchanged, Fate::Removed, Fate::Redacted, Fate::Unchanged])
    );
    assert_eq!(
        fates_for_names(&config, true, &snapshot),
        Ok(vec![Fate::Unchanged, Fate::Removed, Fate::Removed, Fate::Removed])
    );
    let bad = Rule { name: String::from("bad"), pattern: String::from("[z-a]"), action: RuleAction::Keep };
    let broken = Config { rules: vec![bad], redact_value: String::from("x") };
    assert_eq!(fates_for_names(&broken, false, &snapshot), Err(FilterError::InvalidPattern(0)));
}
