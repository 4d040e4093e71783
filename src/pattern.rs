//! Predicates over process names: an exact name or a regular-expression
//! family, both blind to ASCII case and to an executable suffix.
use vstd::prelude::*;
use crate::text::{same_ignoring_case, same_ignoring_case_at};

verus! {

#[verifier::external_type_specification]
#[verifier::external_body]
pub struct ExRegex(regex::Regex);

#[verifier::external_type_specification]
#[verifier::external_body]
pub struct ExRegexError(regex::Error);

/// Whether `regex::Regex::new` accepts `source` (its syntax, and the default
/// size limit of the compiled program).
pub uninterp spec fn regex_compiles(source: Seq<char>) -> bool;

/// Whether a regex compiled from `source` finds a match anywhere in `hay`.
pub uninterp spec fn regex_finds(source: Seq<char>, hay: Seq<char>) -> bool;

/// Relies on `regex::Regex::new`: whether compiling succeeds depends on the
/// pattern text alone.
#[verifier::external_body]
fn compile_regex(source: &str) -> (r: Result<regex::Regex, regex::Error>)
    ensures
        r is Ok <==> regex_compiles(source@),
{
    regex::Regex::new(source)
}

/// Relies on `regex::Regex::is_match`: true when the regex matches anywhere in
/// `hay`. `pattern.compiled` is always built from `pattern.source` (see
/// `NamePattern::family`, the one place that makes a `RegexPattern`).
#[verifier::external_body]
fn regex_is_match(pattern: &RegexPattern, hay: &str) -> (r: bool)
    ensures
        r == regex_finds(pattern.source@, hay@),
{
    pattern.compiled.is_match(hay)
}

/// The suffix that executables carry on some platforms.
pub open spec fn exe_suffix() -> Seq<char> {
    ".exe"@
}

/// `name` is `want`, possibly followed by the executable suffix, ignoring
/// ASCII case throughout.
pub open spec fn exact_accepts(want: Seq<char>, name: Seq<char>) -> bool {
    same_ignoring_case(name, want) || (name.len() == want.len() + exe_suffix().len()
        && same_ignoring_case(name.subrange(0, want.len() as int), want)
        && same_ignoring_case(name.subrange(want.len() as int, name.len() as int), exe_suffix()))
}

/// The text that case-insensitive compilation puts before a family pattern.
pub open spec fn ignore_case_flag() -> Seq<char> {
    "(?i)"@
}

/// A compiled regular expression together with the text it was compiled from.
pub struct RegexPattern {
    source: String,
    compiled: regex::Regex,
}

impl RegexPattern {
    /// The text the regex was compiled from.
    pub closed spec fn source_text(&self) -> Seq<char> {
        self.source@
    }
}

/// Why a name pattern could not be built.
#[derive(Debug, Clone, PartialEq, Eq)]
pub enum PatternError {
    /// The regex crate refused the expression.
    InvalidRegex,
}

/// Which process names belong to the target application.
pub enum NamePattern {
    /// The name itself, with an optional executable suffix.
    Exact(String),
    /// Any name in which the expression, compiled case-insensitively, finds
    /// a match.
    Family(RegexPattern),
}

impl NamePattern {
    /// Whether a process called `name` belongs to the target application.
    pub open spec fn accepts(&self, name: Seq<char>) -> bool {
        match self {
            NamePattern::Exact(want) => exact_accepts(want@, name),
            NamePattern::Family(p) => regex_finds(p.source_text(), name),
        }
    }

    pub fn exact(name: &str) -> (r: NamePattern)
        ensures
            r matches NamePattern::Exact(w) && w@ == name@,
    {
        NamePattern::Exact(String::from_str(name))
    }

    /// Compiles `expr` with ASCII case ignored; fails when the regex crate
    /// refuses the resulting expression.
    pub fn family(expr: &str) -> (r: Result<NamePattern, PatternError>)
        ensures
            r is Ok <==> regex_compiles(ignore_case_flag() + expr@),
            r matches Ok(p) ==> (p matches NamePattern::Family(rp) && rp.source_text()
                == ignore_case_flag() + expr@),
            r matches Err(e) ==> e == PatternError::InvalidRegex,
    {
        let mut source = String::from_str("(?i)");
        source.append(expr);
        match compile_regex(source.as_str()) {
            Ok(compiled) => Ok(NamePattern::Family(RegexPattern { source, compiled })),
            Err(_) => Err(PatternError::InvalidRegex),
        }
    }

    /// Whether a process called `name` belongs to the target application.
    pub fn is_match(&self, name: &str) -> (r: bool)
        ensures
            r == self.accepts(name@),
    {
        match self {
            NamePattern::Exact(want) => {
                let n = name.unicode_len();
                let w = want.as_str().unicode_len();
                proof {
                    reveal_strlit(".exe");
                    assert(name@.subrange(0, n as int) =~= name@);
                }
                if n == w {
                    same_ignoring_case_at(name, 0, n, want.as_str())
                } else if w <= n && n - w == 4 {
                    let head = same_ignoring_case_at(name, 0, w, want.as_str());
                    let tail = same_ignoring_case_at(name, w, 4, ".exe");
                    head && tail
                } else {
                    false
                }
            },
            NamePattern::Family(p) => regex_is_match(p, name),
        }
    }
}

} // verus!
