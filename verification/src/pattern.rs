//! The pattern filter: an optional compiled regular expression; a line
//! passes when no pattern is configured or the pattern matches it.

use vstd::prelude::*;

verus! {

/// The pattern text a compiled regular expression was built from
/// (`regex::Regex` keeps it and returns it from `as_str`).
pub uninterp spec fn regex_pattern(re: regex::Regex) -> Seq<char>;

/// Whether the pattern text compiles as a regular expression: exactly the
/// inputs on which `regex::Regex::new` returns `Ok`.
pub uninterp spec fn regex_valid(pattern: Seq<char>) -> bool;

/// Whether the regular expression compiled from `pattern` matches `line`
/// anywhere: what `regex::Regex::is_match` returns, a function of the
/// pattern text and the line alone.
pub uninterp spec fn regex_accepts(pattern: Seq<char>, line: Seq<char>) -> bool;

#[verifier::external_type_specification]
#[verifier::external_body]
pub struct ExRegex(regex::Regex);

#[verifier::external_type_specification]
#[verifier::external_body]
pub struct ExRegexError(regex::Error);

/// Relies on `regex::Regex::new`: compilation succeeds or fails on the
/// pattern text alone, and the compiled value remembers that text.
#[verifier::external_body]
fn regex_new(pattern: &str) -> (r: Result<regex::Regex, regex::Error>)
    ensures
        r is Ok <==> regex_valid(pattern@),
        r is Ok ==> regex_pattern(r->Ok_0) == pattern@,
{
    regex::Regex::new(pattern)
}

/// Relies on `regex::Regex::is_match`: the decision depends only on the
/// pattern the expression was compiled from and on the line tested.
#[verifier::external_body]
fn regex_is_match(re: &regex::Regex, line: &str) -> (b: bool)
    ensures
        b == regex_accepts(regex_pattern(*re), line@),
{
    re.is_match(line)
}

/// Relies on `Clone` for `regex::Regex`: the clone holds the same compiled
/// pattern.
#[verifier::external_body]
fn regex_duplicate(re: &regex::Regex) -> (r: regex::Regex)
    ensures
        regex_pattern(r) == regex_pattern(*re),
{
    re.clone()
}

/// The accept/reject decision for an optional pattern text: true when no
/// pattern is configured or the pattern matches the line.
pub open spec fn accepts(pat: Option<Seq<char>>, line: Seq<char>) -> bool {
    match pat {
        None => true,
        Some(p) => regex_accepts(p, line),
    }
}

/// A filter pattern that does not compile as a regular expression; the
/// compiler's report rides along for the caller to show.
#[derive(Debug)]
pub enum FilterError {
    InvalidPattern(regex::Error),
}

/// Wraps an optional compiled regular expression. With no pattern, every
/// line passes.
pub struct PatternFilter {
    reg: Option<regex::Regex>,
}

impl PatternFilter {
    /// The pattern text this filter was built from, if any.
    pub closed spec fn pattern(self) -> Option<Seq<char>> {
        match self.reg {
            Some(re) => Some(regex_pattern(re)),
            None => None,
        }
    }

    /// The accept/reject decision: true when no pattern is configured or
    /// the pattern matches the line. A pure function of the filter and the
    /// line, so repeated calls of `matches` on one line always agree.
    pub open spec fn spec_accepts(self, line: Seq<char>) -> bool {
        accepts(self.pattern(), line)
    }

    /// Build a filter from an optional pattern; rejects a pattern that does
    /// not compile, before any query runs.
    pub fn new(pattern: Option<&str>) -> (r: Result<PatternFilter, FilterError>)
        ensures
            match pattern {
                None => r is Ok && r->Ok_0.pattern() is None,
                Some(p) => {
                    &&& r is Ok <==> regex_valid(p@)
                    &&& r is Ok ==> r->Ok_0.pattern() == Some(p@)
                    &&& r is Err ==> r->Err_0 is InvalidPattern
                },
            },
    {
        match pattern {
            None => Ok(PatternFilter { reg: None }),
            Some(p) => match regex_new(p) {
                Ok(re) => Ok(PatternFilter { reg: Some(re) }),
                Err(e) => Err(FilterError::InvalidPattern(e)),
            },
        }
    }

    /// Whether this filter accepts the line.
    pub fn matches(&self, line: &str) -> (b: bool)
        ensures
            b == self.spec_accepts(line@),
    {
        match &self.reg {
            None => true,
            Some(re) => regex_is_match(re, line),
        }
    }

    /// A copy of this filter; each planned query carries its own.
    pub fn duplicate(&self) -> (r: PatternFilter)
        ensures
            r.pattern() == self.pattern(),
    {
        match &self.reg {
            None => PatternFilter { reg: None },
            Some(re) => PatternFilter { reg: Some(regex_duplicate(re)) },
        }
    }
}

/// The filter's decision is pure: `matches` pins its result to
/// `spec_accepts`, a function of the filter and the line alone, so any two
/// results it can return on one filter and one line are the same.
pub proof fn lemma_matches_deterministic(f: PatternFilter, line: Seq<char>, b1: bool, b2: bool)
    requires
        b1 == f.spec_accepts(line),
        b2 == f.spec_accepts(line),
    ensures
        b1 == b2,
{
}

/// With no pattern configured, the filter accepts every line.
pub proof fn lemma_no_pattern_accepts_all(f: PatternFilter, line: Seq<char>)
    requires
        f.pattern() is None,
    ensures
        f.spec_accepts(line),
{
}

} // verus!
