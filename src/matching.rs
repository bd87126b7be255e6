use vstd::prelude::*;

verus! {

/// Whether the regex crate accepts `pattern`, built for case-insensitive
/// matching.
pub uninterp spec fn compiles_ci(pattern: Seq<char>) -> bool;

/// Whether `pattern`, built for case-insensitive matching, matches somewhere
/// in `name`.
pub uninterp spec fn matches_ci(pattern: Seq<char>, name: Seq<char>) -> bool;

/// Relies on regex::RegexBuilder::build with case_insensitive(true): whether
/// it returns `Ok` depends on the pattern's text alone.
#[verifier::external_body]
pub(crate) fn pattern_compiles(pattern: &str) -> (r: bool)
    ensures
        r == compiles_ci(pattern@),
{
    regex::RegexBuilder::new(pattern).case_insensitive(true).build().is_ok()
}

/// Relies on regex::Regex::is_match, on the regex that
/// regex::RegexBuilder::build gives with case_insensitive(true): the answer
/// depends on the pattern and the name alone.
#[verifier::external_body]
pub(crate) fn pattern_matches(pattern: &str, name: &str) -> (r: bool)
    requires
        compiles_ci(pattern@),
    ensures
        r == matches_ci(pattern@, name@),
{
    match regex::RegexBuilder::new(pattern).case_insensitive(true).build() {
        Ok(re) => re.is_match(name),
        Err(_) => false,
    }
}

} // verus!
