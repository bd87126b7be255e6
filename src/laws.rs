use vstd::prelude::*;

use crate::filter::{fate_of, filtered, first_action, Fate};
use crate::matching::matches_ci;
use crate::rules::{anchored, default_rules, rule_set, RuleAction, RuleModel};

verus! {

proof fn lemma_filtered_push(
    rules: Seq<RuleModel>,
    ignore_environment: bool,
    redact_value: Seq<char>,
    env: Seq<(Seq<char>, Seq<char>)>,
    entry: (Seq<char>, Seq<char>),
)
    ensures
        filtered(rules, ignore_environment, redact_value, env.push(entry)) == ({
            let head = filtered(rules, ignore_environment, redact_value, env);
            match fate_of(rules, ignore_environment, entry.0) {
                Fate::Unchanged => head.push(entry),
                Fate::Redacted => head.push((entry.0, redact_value)),
                Fate::Removed => head,
            }
        }),
{
    assert(env.push(entry).drop_last() =~= env);
}

/// Filtering twice gives what filtering once gives: a kept variable keeps
/// its value, a redacted one keeps the placeholder, a removed one stays away.
pub proof fn lemma_filter_idempotent(
    rules: Seq<RuleModel>,
    ignore_environment: bool,
    redact_value: Seq<char>,
    env: Seq<(Seq<char>, Seq<char>)>,
)
    ensures
        filtered(
            rules,
            ignore_environment,
            redact_value,
            filtered(rules, ignore_environment, redact_value, env),
        ) == filtered(rules, ignore_environment, redact_value, env),
    decreases env.len(),
{
    if env.len() > 0 {
        let front = env.drop_last();
        let entry = env.last();
        lemma_filter_idempotent(rules, ignore_environment, redact_value, front);
        assert(front.push(entry) =~= env);
        lemma_filtered_push(rules, ignore_environment, redact_value, front, entry);
        let head = filtered(rules, ignore_environment, redact_value, front);
        match fate_of(rules, ignore_environment, entry.0) {
            Fate::Unchanged => {
                lemma_filtered_push(rules, ignore_environment, redact_value, head, entry);
            },
            Fate::Redacted => {
                lemma_filtered_push(
                    rules,
                    ignore_environment,
                    redact_value,
                    head,
                    (entry.0, redact_value),
                );
            },
            Fate::Removed => {},
        }
    }
}

/// Each variable is judged by its own name alone: filtering two parts of an
/// environment one after the other gives what filtering the whole gives, so
/// what happens to the first part never changes what happens to the second.
pub proof fn lemma_filter_concat(
    rules: Seq<RuleModel>,
    ignore_environment: bool,
    redact_value: Seq<char>,
    a: Seq<(Seq<char>, Seq<char>)>,
    b: Seq<(Seq<char>, Seq<char>)>,
)
    ensures
        filtered(rules, ignore_environment, redact_value, a + b) == filtered(
            rules,
            ignore_environment,
            redact_value,
            a,
        ) + filtered(rules, ignore_environment, redact_value, b),
    decreases b.len(),
{
    if b.len() == 0 {
        assert(a + b =~= a);
        assert(filtered(rules, ignore_environment, redact_value, a) + Seq::empty() =~= filtered(
            rules,
            ignore_environment,
            redact_value,
            a,
        ));
    } else {
        let front = b.drop_last();
        let entry = b.last();
        lemma_filter_concat(rules, ignore_environment, redact_value, a, front);
        assert(front.push(entry) =~= b);
        assert((a + front).push(entry) =~= a + b);
        lemma_filtered_push(rules, ignore_environment, redact_value, front, entry);
        lemma_filtered_push(rules, ignore_environment, redact_value, a + front, entry);
        let fa = filtered(rules, ignore_environment, redact_value, a);
        let ff = filtered(rules, ignore_environment, redact_value, front);
        assert(fa + ff.push(entry) =~= (fa + ff).push(entry));
        assert(fa + ff.push((entry.0, redact_value)) =~= (fa + ff).push((entry.0, redact_value)));
    }
}

/// Filtering adds no variable and renames none: every variable after it is
/// one from before, with its own value or with the placeholder.
pub proof fn lemma_filter_adds_nothing(
    rules: Seq<RuleModel>,
    ignore_environment: bool,
    redact_value: Seq<char>,
    env: Seq<(Seq<char>, Seq<char>)>,
)
    ensures
        filtered(rules, ignore_environment, redact_value, env).len() <= env.len(),
        forall|i: int|
            0 <= i < filtered(rules, ignore_environment, redact_value, env).len() ==> exists|
                j: int,
            |
                0 <= j < env.len() && (#[trigger] filtered(
                    rules,
                    ignore_environment,
                    redact_value,
                    env,
                )[i]).0 == env[j].0 && (filtered(rules, ignore_environment, redact_value, env)[i].1
                    == env[j].1 || filtered(rules, ignore_environment, redact_value, env)[i].1
                    == redact_value),
    decreases env.len(),
{
    if env.len() > 0 {
        let front = env.drop_last();
        let entry = env.last();
        lemma_filter_adds_nothing(rules, ignore_environment, redact_value, front);
        assert(front.push(entry) =~= env);
        lemma_filtered_push(rules, ignore_environment, redact_value, front, entry);
        let head = filtered(rules, ignore_environment, redact_value, front);
        let out = filtered(rules, ignore_environment, redact_value, env);
        assert forall|i: int| 0 <= i < out.len() implies exists|j: int|
            0 <= j < env.len() && (#[trigger] out[i]).0 == env[j].0 && (out[i].1 == env[j].1
                || out[i].1 == redact_value) by {
            if i < head.len() {
                let j = choose|j: int|
                    0 <= j < front.len() && (#[trigger] head[i]).0 == front[j].0 && (head[i].1
                        == front[j].1 || head[i].1 == redact_value);
                assert(out[i] == head[i]);
                assert(env[j] == front[j]);
            } else {
                assert(out[i].0 == env[env.len() - 1].0);
            }
        }
    }
}

proof fn lemma_first_action_within(
    rules: Seq<RuleModel>,
    name: Seq<char>,
    start: int,
    i: int,
    action: RuleAction,
)
    requires
        0 <= start <= i < rules.len(),
        matches_ci(rules[i].pattern, name),
        forall|j: int| start <= j <= i ==> (#[trigger] rules[j]).action == action,
    ensures
        first_action(rules, name, start) == Some(action),
    decreases i - start,
{
    if start < i && !matches_ci(rules[start].pattern, name) {
        lemma_first_action_within(rules, name, start + 1, i, action);
    }
}

proof fn lemma_first_action_skip(rules: Seq<RuleModel>, name: Seq<char>, start: int, end: int)
    requires
        0 <= start <= end <= rules.len(),
        forall|j: int| start <= j < end ==> !matches_ci((#[trigger] rules[j]).pattern, name),
    ensures
        first_action(rules, name, start) == first_action(rules, name, end),
    decreases end - start,
{
    if start < end {
        lemma_first_action_skip(rules, name, start + 1, end);
    }
}

proof fn lemma_first_action_all(
    rules: Seq<RuleModel>,
    name: Seq<char>,
    start: int,
    action: RuleAction,
)
    requires
        0 <= start,
        forall|j: int| start <= j < rules.len() ==> (#[trigger] rules[j]).action == action,
    ensures
        first_action(rules, name, start) is None || first_action(rules, name, start) == Some(
            action,
        ),
    decreases rules.len() - start,
{
    if start < rules.len() {
        lemma_first_action_all(rules, name, start + 1, action);
    }
}

proof fn lemma_single(
    rules: Seq<RuleModel>,
    ignore_environment: bool,
    redact_value: Seq<char>,
    name: Seq<char>,
    value: Seq<char>,
)
    ensures
        filtered(rules, ignore_environment, redact_value, seq![(name, value)]) == match fate_of(
            rules,
            ignore_environment,
            name,
        ) {
            Fate::Unchanged => seq![(name, value)],
            Fate::Redacted => seq![(name, redact_value)],
            Fate::Removed => Seq::empty(),
        },
{
    lemma_filtered_push(rules, ignore_environment, redact_value, Seq::empty(), (name, value));
    assert(Seq::<(Seq<char>, Seq<char>)>::empty().push((name, value)) =~= seq![(name, value)]);
    assert(Seq::<(Seq<char>, Seq<char>)>::empty().push((name, redact_value)) =~= seq![
        (name, redact_value),
    ]);
}

/// A variable whose name an explicit keep name matches survives with its
/// value, whatever the other rules and the ignore mode say.
pub proof fn lemma_explicit_keep_wins(
    keep: Seq<Seq<char>>,
    unset: Seq<Seq<char>>,
    k: int,
    ignore_environment: bool,
    redact_value: Seq<char>,
    name: Seq<char>,
    value: Seq<char>,
)
    requires
        0 <= k < keep.len(),
        matches_ci(anchored(keep[k]), name),
    ensures
        filtered(rule_set(keep, unset), ignore_environment, redact_value, seq![(name, value)])
            == seq![(name, value)],
{
    let rules = rule_set(keep, unset);
    assert(rules[k].pattern == anchored(keep[k]));
    assert forall|j: int| 0 <= j <= k implies (#[trigger] rules[j]).action == RuleAction::Keep by {
        assert(rules[j] == crate::rules::explicit_keep_rule(keep[j]));
    }
    lemma_first_action_within(rules, name, 0, k, RuleAction::Keep);
    lemma_single(rules, ignore_environment, redact_value, name, value);
}

/// A variable whose name an explicit unset name matches, and no explicit
/// keep name does, is removed, whether or not a built-in rule matches it.
pub proof fn lemma_explicit_unset_removes(
    keep: Seq<Seq<char>>,
    unset: Seq<Seq<char>>,
    u: int,
    ignore_environment: bool,
    redact_value: Seq<char>,
    name: Seq<char>,
    value: Seq<char>,
)
    requires
        0 <= u < unset.len(),
        matches_ci(anchored(unset[u]), name),
        forall|j: int| 0 <= j < keep.len() ==> !matches_ci(anchored(#[trigger] keep[j]), name),
    ensures
        filtered(rule_set(keep, unset), ignore_environment, redact_value, seq![(name, value)])
            == Seq::<(Seq<char>, Seq<char>)>::empty(),
{
    let rules = rule_set(keep, unset);
    let nk = keep.len() as int;
    assert forall|j: int| 0 <= j < nk implies !matches_ci((#[trigger] rules[j]).pattern, name) by {
        assert(rules[j] == crate::rules::explicit_keep_rule(keep[j]));
    }
    lemma_first_action_skip(rules, name, 0, nk);
    assert(rules[nk + u].pattern == anchored(unset[u]));
    assert forall|j: int| nk <= j <= nk + u implies (#[trigger] rules[j]).action
        == RuleAction::Unset by {
        assert(rules[j] == crate::rules::explicit_unset_rule(unset[j - nk]));
    }
    lemma_first_action_within(rules, name, nk, nk + u, RuleAction::Unset);
    lemma_single(rules, ignore_environment, redact_value, name, value);
}

/// With the ignore mode on and no explicit names, every variable is removed:
/// those that a built-in pattern matches as well as the others.
pub proof fn lemma_ignore_environment_wipes(
    redact_value: Seq<char>,
    env: Seq<(Seq<char>, Seq<char>)>,
)
    ensures
        filtered(rule_set(Seq::empty(), Seq::empty()), true, redact_value, env) == Seq::<
            (Seq<char>, Seq<char>),
        >::empty(),
    decreases env.len(),
{
    let rules = rule_set(Seq::empty(), Seq::empty());
    if env.len() > 0 {
        let front = env.drop_last();
        lemma_ignore_environment_wipes(redact_value, front);
        assert(front.push(env.last()) =~= env);
        lemma_filtered_push(rules, true, redact_value, front, env.last());
        assert(rules =~= default_rules());
        lemma_first_action_all(rules, env.last().0, 0, RuleAction::Redact);
    }
}

/// Without the ignore mode, a variable whose name no explicit name matches
/// and a built-in pattern does keeps its name and gets the placeholder value.
pub proof fn lemma_default_redacts(
    keep: Seq<Seq<char>>,
    unset: Seq<Seq<char>>,
    d: int,
    redact_value: Seq<char>,
    name: Seq<char>,
    value: Seq<char>,
)
    requires
        0 <= d < default_rules().len(),
        matches_ci(default_rules()[d].pattern, name),
        forall|j: int| 0 <= j < keep.len() ==> !matches_ci(anchored(#[trigger] keep[j]), name),
        forall|j: int| 0 <= j < unset.len() ==> !matches_ci(anchored(#[trigger] unset[j]), name),
    ensures
        filtered(rule_set(keep, unset), false, redact_value, seq![(name, value)]) == seq![
            (name, redact_value),
        ],
{
    let rules = rule_set(keep, unset);
    let n = (keep.len() + unset.len()) as int;
    assert forall|j: int| 0 <= j < n implies !matches_ci((#[trigger] rules[j]).pattern, name) by {
        if j < keep.len() {
            assert(rules[j] == crate::rules::explicit_keep_rule(keep[j]));
        } else {
            assert(rules[j] == crate::rules::explicit_unset_rule(unset[j - keep.len()]));
        }
    }
    lemma_first_action_skip(rules, name, 0, n);
    assert(rules[n + d] == default_rules()[d]);
    assert forall|j: int| n <= j <= n + d implies (#[trigger] rules[j]).action
        == RuleAction::Redact by {
        assert(rules[j] == default_rules()[j - n]);
    }
    lemma_first_action_within(rules, name, n, n + d, RuleAction::Redact);
    lemma_single(rules, false, redact_value, name, value);
}

} // verus!
