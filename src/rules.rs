use vstd::prelude::*;

verus! {

/// What happens to a variable whose name a rule matches.
#[derive(Clone, Copy, Debug, PartialEq, Eq, Structural)]
pub enum RuleAction {
    Keep,
    Redact,
    Unset,
}

/// One rule: a diagnostic label, a regular expression over variable names
/// (matched case-insensitively) and the action taken on a match.
#[derive(Debug, PartialEq, Eq, Clone)]
pub struct Rule {
    pub name: String,
    pub pattern: String,
    pub action: RuleAction,
}

/// The mathematical model of a rule.
pub struct RuleModel {
    pub name: Seq<char>,
    pub pattern: Seq<char>,
    pub action: RuleAction,
}

impl View for Rule {
    type V = RuleModel;

    open spec fn view(&self) -> RuleModel {
        RuleModel { name: self.name@, pattern: self.pattern@, action: self.action }
    }
}

/// The models of a sequence of rules, in order.
pub open spec fn models(rs: Seq<Rule>) -> Seq<RuleModel> {
    rs.map_values(|r: Rule| r@)
}

/// The texts of a sequence of strings, in order.
pub open spec fn texts(ss: Seq<String>) -> Seq<Seq<char>> {
    ss.map_values(|s: String| s@)
}

/// The characters that carry a meaning in a regular expression.
pub open spec fn is_meta_char(c: char) -> bool {
    c == '\\' || c == '.' || c == '+' || c == '*' || c == '?' || c == '(' || c == ')'
        || c == '|' || c == '[' || c == ']' || c == '{' || c == '}' || c == '^' || c == '$'
        || c == '#' || c == '&' || c == '-' || c == '~'
}

/// `s` with a backslash put before each meta character, so that the result,
/// read as a regular expression, stands for `s` literally.
pub open spec fn escaped(s: Seq<char>) -> Seq<char>
    decreases s.len(),
{
    if s.len() == 0 {
        Seq::empty()
    } else {
        let head = escaped(s.drop_last());
        if is_meta_char(s.last()) {
            head + seq!['\\', s.last()]
        } else {
            head.push(s.last())
        }
    }
}

/// The pattern that matches exactly the name `s` (up to case).
pub open spec fn anchored(s: Seq<char>) -> Seq<char> {
    seq!['^'] + escaped(s) + seq!['$']
}

pub open spec fn explicit_keep_rule(s: Seq<char>) -> RuleModel {
    RuleModel { name: "cli_explicit_keep"@, pattern: anchored(s), action: RuleAction::Keep }
}

pub open spec fn explicit_unset_rule(s: Seq<char>) -> RuleModel {
    RuleModel { name: "cli_explicit_unset"@, pattern: anchored(s), action: RuleAction::Unset }
}

pub open spec fn redact_rule(name: Seq<char>, pattern: Seq<char>) -> RuleModel {
    RuleModel { name, pattern, action: RuleAction::Redact }
}

/// The built-in rules, which redact names ending like a secret.
pub open spec fn default_rules() -> Seq<RuleModel> {
    seq![
        redact_rule("generic_secret"@, "SECRETS?$"@),
        redact_rule("generic_secret_token"@, "TOKENS?$"@),
        redact_rule("generic_secret_key"@, "KEYS?$"@),
        redact_rule("generic_password"@, "PASSWORDS?$"@),
        redact_rule("generic_password_short"@, "(_|-)PW$"@),
    ]
}

/// The rule set: one keep rule per keep name, then one unset rule per unset
/// name, then the built-in rules, each group in the order given.
pub open spec fn rule_set(keep: Seq<Seq<char>>, unset: Seq<Seq<char>>) -> Seq<RuleModel> {
    keep.map_values(|k: Seq<char>| explicit_keep_rule(k)) + unset.map_values(
        |u: Seq<char>| explicit_unset_rule(u),
    ) + default_rules()
}

/// Relies on regex::escape: it puts a backslash before each meta character
/// and copies every other character.
#[verifier::external_body]
fn escape_literal(s: &str) -> (r: String)
    ensures
        r@ == escaped(s@),
{
    regex::escape(s)
}

/// The pattern `^NAME$` for a literal name, its meta characters escaped.
pub fn anchored_pattern(s: &str) -> (r: String)
    ensures
        r@ == anchored(s@),
{
    let mut p = String::from_str("^");
    let e = escape_literal(s);
    p.append(e.as_str());
    p.append("$");
    proof {
        reveal_strlit("^");
        reveal_strlit("$");
        assert(p@ =~= anchored(s@));
    }
    p
}

fn redact(name: &str, pattern: &str) -> (r: Rule)
    ensures
        r@ == redact_rule(name@, pattern@),
{
    Rule { name: String::from_str(name), pattern: String::from_str(pattern), action: RuleAction::Redact }
}

/// Builds the rule set from explicit keep and unset names.
pub fn load_rules(keep: &Vec<String>, unset: &Vec<String>) -> (rules: Vec<Rule>)
    ensures
        models(rules@) == rule_set(texts(keep@), texts(unset@)),
{
    let ghost ks = texts(keep@).map_values(|k: Seq<char>| explicit_keep_rule(k));
    let ghost us = texts(unset@).map_values(|u: Seq<char>| explicit_unset_rule(u));
    let mut rules: Vec<Rule> = Vec::new();
    let mut i: usize = 0;
    while i < keep.len()
        invariant
            i <= keep@.len(),
            ks == texts(keep@).map_values(|k: Seq<char>| explicit_keep_rule(k)),
            models(rules@) =~= ks.subrange(0, i as int),
        decreases keep@.len() - i,
    {
        let r = Rule {
            name: String::from_str("cli_explicit_keep"),
            pattern: anchored_pattern(keep[i].as_str()),
            action: RuleAction::Keep,
        };
        assert(r@ == ks[i as int]);
        let ghost before = rules@;
        rules.push(r);
        assert(models(rules@) =~= models(before).push(r@));
        i = i + 1;
        assert(models(rules@) =~= ks.subrange(0, i as int));
    }
    let mut j: usize = 0;
    while j < unset.len()
        invariant
            j <= unset@.len(),
            ks == texts(keep@).map_values(|k: Seq<char>| explicit_keep_rule(k)),
            us == texts(unset@).map_values(|u: Seq<char>| explicit_unset_rule(u)),
            models(rules@) =~= ks + us.subrange(0, j as int),
        decreases unset@.len() - j,
    {
        let r = Rule {
            name: String::from_str("cli_explicit_unset"),
            pattern: anchored_pattern(unset[j].as_str()),
            action: RuleAction::Unset,
        };
        assert(r@ == us[j as int]);
        let ghost before = rules@;
        rules.push(r);
        assert(models(rules@) =~= models(before).push(r@));
        j = j + 1;
        assert(models(rules@) =~= ks + us.subrange(0, j as int));
    }
    let ghost explicit = models(rules@);
    rules.push(redact("generic_secret", "SECRETS?$"));
    rules.push(redact("generic_secret_token", "TOKENS?$"));
    rules.push(redact("generic_secret_key", "KEYS?$"));
    rules.push(redact("generic_password", "PASSWORDS?$"));
    rules.push(redact("generic_password_short", "(_|-)PW$"));
    assert(models(rules@) =~= explicit + default_rules());
    assert(models(rules@) =~= rule_set(texts(keep@), texts(unset@)));
    rules
}

} // verus!
