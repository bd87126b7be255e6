use vstd::prelude::*;

use crate::matching::{compiles_ci, matches_ci, pattern_compiles, pattern_matches};
use crate::rules::{models, Rule, RuleAction, RuleModel};

verus! {

/// What becomes of one variable.
#[derive(Clone, Copy, Debug, PartialEq, Eq, Structural)]
pub enum Fate {
    Unchanged,
    Redacted,
    Removed,
}

/// The rules and the placeholder that replaces a redacted value.
pub struct Config {
    pub rules: Vec<Rule>,
    pub redact_value: String,
}

/// A rule whose pattern the regex crate refuses, by its index.
#[derive(Clone, Copy, Debug, PartialEq, Eq, Structural)]
pub enum FilterError {
    InvalidPattern(usize),
}

/// An environment as a sequence of (name, value) texts.
pub open spec fn env_model(env: Seq<(String, String)>) -> Seq<(Seq<char>, Seq<char>)> {
    env.map_values(|p: (String, String)| (p.0@, p.1@))
}

pub open spec fn all_compile(rules: Seq<RuleModel>) -> bool {
    forall|i: int| 0 <= i < rules.len() ==> compiles_ci(#[trigger] rules[i].pattern)
}

/// The action of the first rule at index `i` or later that matches `name`.
pub open spec fn first_action(rules: Seq<RuleModel>, name: Seq<char>, i: int) -> Option<
    RuleAction,
>
    decreases rules.len() - i,
{
    if i < 0 || i >= rules.len() {
        None
    } else if matches_ci(rules[i].pattern, name) {
        Some(rules[i].action)
    } else {
        first_action(rules, name, i + 1)
    }
}

/// The fate given by the first matching action, if any.
pub open spec fn fate(action: Option<RuleAction>, ignore_environment: bool) -> Fate {
    match action {
        Some(RuleAction::Keep) => Fate::Unchanged,
        Some(RuleAction::Redact) => if ignore_environment {
            Fate::Removed
        } else {
            Fate::Redacted
        },
        Some(RuleAction::Unset) => Fate::Removed,
        None => if ignore_environment {
            Fate::Removed
        } else {
            Fate::Unchanged
        },
    }
}

pub open spec fn fate_of(rules: Seq<RuleModel>, ignore_environment: bool, name: Seq<char>) -> Fate {
    fate(first_action(rules, name, 0), ignore_environment)
}

/// The environment after filtering: each variable, in order, unchanged, with
/// its value replaced by `redact_value`, or left out.
pub open spec fn filtered(
    rules: Seq<RuleModel>,
    ignore_environment: bool,
    redact_value: Seq<char>,
    env: Seq<(Seq<char>, Seq<char>)>,
) -> Seq<(Seq<char>, Seq<char>)>
    decreases env.len(),
{
    if env.len() == 0 {
        Seq::empty()
    } else {
        let head = filtered(rules, ignore_environment, redact_value, env.drop_last());
        let (name, value) = env.last();
        match fate_of(rules, ignore_environment, name) {
            Fate::Unchanged => head.push((name, value)),
            Fate::Redacted => head.push((name, redact_value)),
            Fate::Removed => head,
        }
    }
}

/// Checks that the regex crate accepts every rule's pattern; otherwise names
/// the first rule that it refuses.
pub fn check_rules(rules: &Vec<Rule>) -> (r: Result<(), FilterError>)
    ensures
        r is Ok <==> all_compile(models(rules@)),
        r matches Err(FilterError::InvalidPattern(i)) ==> i < rules@.len() && !compiles_ci(
            rules@[i as int].pattern@,
        ) && forall|j: int| 0 <= j < i ==> compiles_ci(#[trigger] rules@[j].pattern@),
{
    let mut i: usize = 0;
    while i < rules.len()
        invariant
            i <= rules@.len(),
            forall|j: int| 0 <= j < i ==> compiles_ci(#[trigger] rules@[j].pattern@),
        decreases rules@.len() - i,
    {
        if !pattern_compiles(rules[i].pattern.as_str()) {
            assert(!compiles_ci(models(rules@)[i as int].pattern));
            return Err(FilterError::InvalidPattern(i));
        }
        i = i + 1;
    }
    assert forall|j: int| 0 <= j < models(rules@).len() implies compiles_ci(
        #[trigger] models(rules@)[j].pattern,
    ) by {
        assert(compiles_ci(rules@[j].pattern@));
    }
    Ok(())
}

/// The action of the first rule, in order, whose pattern matches `key`.
pub fn first_matching_action(rules: &Vec<Rule>, key: &str) -> (r: Option<RuleAction>)
    requires
        all_compile(models(rules@)),
    ensures
        r == first_action(models(rules@), key@, 0),
{
    let ghost m = models(rules@);
    let mut i: usize = 0;
    while i < rules.len()
        invariant
            i <= rules@.len(),
            m == models(rules@),
            all_compile(m),
            first_action(m, key@, 0) == first_action(m, key@, i as int),
        decreases rules@.len() - i,
    {
        assert(compiles_ci(m[i as int].pattern));
        if pattern_matches(rules[i].pattern.as_str(), key) {
            return Some(rules[i].action);
        }
        i = i + 1;
    }
    None
}

/// The fate that an action, or the absence of a match, gives.
pub fn decide(action: Option<RuleAction>, ignore_environment: bool) -> (r: Fate)
    ensures
        r == fate(action, ignore_environment),
{
    match action {
        Some(RuleAction::Keep) => Fate::Unchanged,
        Some(RuleAction::Redact) => if ignore_environment {
            Fate::Removed
        } else {
            Fate::Redacted
        },
        Some(RuleAction::Unset) => Fate::Removed,
        None => if ignore_environment {
            Fate::Removed
        } else {
            Fate::Unchanged
        },
    }
}

/// The fate of each name of a snapshot, in order, judged by the rules of
/// `config`. When a pattern is refused, no name is judged.
pub fn fates_for_names(config: &Config, ignore_environment: bool, names: &Vec<String>) -> (r: Result<
    Vec<Fate>,
    FilterError,
>)
    ensures
        r is Ok <==> all_compile(models(config.rules@)),
        r matches Err(FilterError::InvalidPattern(i)) ==> i < config.rules@.len()
            && !compiles_ci(config.rules@[i as int].pattern@) && forall|j: int|
            0 <= j < i ==> compiles_ci(#[trigger] config.rules@[j].pattern@),
        r matches Ok(fates) ==> fates@.len() == names@.len() && forall|i: int|
            0 <= i < names@.len() ==> fates@[i] == fate_of(
                models(config.rules@),
                ignore_environment,
                #[trigger] names@[i]@,
            ),
{
    match check_rules(&config.rules) {
        Err(e) => {
            return Err(e);
        },
        Ok(()) => {},
    }
    let mut fates: Vec<Fate> = Vec::new();
    let mut i: usize = 0;
    while i < names.len()
        invariant
            i <= names@.len(),
            all_compile(models(config.rules@)),
            fates@.len() == i,
            forall|j: int|
                0 <= j < i ==> fates@[j] == fate_of(
                    models(config.rules@),
                    ignore_environment,
                    #[trigger] names@[j]@,
                ),
        decreases names@.len() - i,
    {
        let action = first_matching_action(&config.rules, names[i].as_str());
        fates.push(decide(action, ignore_environment));
        i = i + 1;
    }
    Ok(fates)
}

/// Filters `env` by the rules of `config`. The names are all read from the
/// environment as it was on entry, so removing one variable never changes
/// how another is judged. When a pattern is refused, nothing is changed.
pub fn apply_env_var_filters(
    config: &Config,
    ignore_environment: bool,
    env: &mut Vec<(String, String)>,
) -> (r: Result<(), FilterError>)
    ensures
        r is Ok <==> all_compile(models(config.rules@)),
        r matches Err(FilterError::InvalidPattern(i)) ==> i < config.rules@.len()
            && !compiles_ci(config.rules@[i as int].pattern@) && forall|j: int|
            0 <= j < i ==> compiles_ci(#[trigger] config.rules@[j].pattern@),
        r is Err ==> final(env)@ == old(env)@,
        r is Ok ==> env_model(final(env)@) == filtered(
            models(config.rules@),
            ignore_environment,
            config.redact_value@,
            env_model(old(env)@),
        ),
{
    match check_rules(&config.rules) {
        Err(e) => {
            return Err(e);
        },
        Ok(()) => {},
    }
    let ghost rules = models(config.rules@);
    let ghost start = env_model(env@);
    let mut out: Vec<(String, String)> = Vec::new();
    let mut i: usize = 0;
    while i < env.len()
        invariant
            i <= env@.len(),
            rules == models(config.rules@),
            all_compile(rules),
            start == env_model(env@),
            env_model(out@) == filtered(
                rules,
                ignore_environment,
                config.redact_value@,
                start.subrange(0, i as int),
            ),
        decreases env@.len() - i,
    {
        let ghost before = out@;
        let action = first_matching_action(&config.rules, env[i].0.as_str());
        let f = decide(action, ignore_environment);
        assert(start.subrange(0, i + 1).drop_last() =~= start.subrange(0, i as int));
        match f {
            Fate::Unchanged => {
                out.push((env[i].0.clone(), env[i].1.clone()));
                assert(env_model(out@) =~= env_model(before).push(start[i as int]));
            },
            Fate::Redacted => {
                out.push((env[i].0.clone(), config.redact_value.clone()));
                assert(env_model(out@) =~= env_model(before).push(
                    (start[i as int].0, config.redact_value@),
                ));
            },
            Fate::Removed => {},
        }
        i = i + 1;
    }
    assert(start.subrange(0, i as int) =~= start);
    *env = out;
    Ok(())
}

} // verus!
