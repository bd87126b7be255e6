use vstd::prelude::*;
use vstd::string::StringSliceAdditionalSpecFns;

verus! {

/// How much the tool reports while it works.
#[derive(Clone, Copy, Debug, PartialEq, Eq, Structural)]
pub enum LogLevel {
    Warn,
    Info,
    Debug,
    Trace,
}

/// The level for a verbosity count: none gives warnings only, and each step
/// up to three adds detail. A higher count is a usage error.
pub open spec fn level_for(verbosity: u8) -> Option<LogLevel> {
    if verbosity == 0 {
        Some(LogLevel::Warn)
    } else if verbosity == 1 {
        Some(LogLevel::Info)
    } else if verbosity == 2 {
        Some(LogLevel::Debug)
    } else if verbosity == 3 {
        Some(LogLevel::Trace)
    } else {
        None
    }
}

pub fn log_level(verbosity: u8) -> (r: Option<LogLevel>)
    ensures
        r == level_for(verbosity),
{
    match verbosity {
        0 => Some(LogLevel::Warn),
        1 => Some(LogLevel::Info),
        2 => Some(LogLevel::Debug),
        3 => Some(LogLevel::Trace),
        _ => None,
    }
}

/// The bytes of the suffix `.UTF-8`.
pub open spec fn utf8_suffix() -> Seq<u8> {
    seq![46u8, 85u8, 84u8, 70u8, 45u8, 56u8]
}

pub open spec fn ends_with(s: Seq<u8>, suffix: Seq<u8>) -> bool {
    s.len() >= suffix.len() && s.subrange(s.len() - suffix.len(), s.len() as int) == suffix
}

/// Whether a locale name (the value of `LANG`) selects UTF-8, that is, ends
/// with `.UTF-8`.
pub fn is_utf8_locale(lang: &str) -> (r: bool)
    ensures
        r == ends_with(lang.spec_bytes(), utf8_suffix()),
{
    let b = lang.as_bytes();
    let suffix: [u8; 6] = [46u8, 85u8, 84u8, 70u8, 45u8, 56u8];
    assert(suffix@ =~= utf8_suffix());
    if b.len() < 6 {
        return false;
    }
    let n: usize = b.len();
    let start: usize = n - 6;
    let mut i: usize = 0;
    while i < 6
        invariant
            i <= 6,
            start + 6 == n,
            n == b@.len(),
            b@ == lang.spec_bytes(),
            suffix@ == utf8_suffix(),
            forall|j: int| 0 <= j < i ==> b@[start + j] == suffix@[j],
        decreases 6 - i,
    {
        if b[start + i] != suffix[i] {
            assert(b@.subrange(start as int, b@.len() as int)[i as int] != utf8_suffix()[i as int]);
            return false;
        }
        i = i + 1;
    }
    assert(b@.subrange(start as int, b@.len() as int) =~= utf8_suffix());
    true
}

} // verus!
