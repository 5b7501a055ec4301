use vstd::prelude::*;

use crate::text::contains_sub;
use crate::Config;

verus! {

#[verifier::external_type_specification]
#[verifier::external_body]
pub struct ExRegex(regex::Regex);

#[verifier::external_type_specification]
#[verifier::external_body]
pub struct ExRegexError(regex::Error);

/// Whether `pattern` compiles as a Unicode-aware regular expression with the
/// given case sensitivity; a function of the pattern and the flag alone.
pub uninterp spec fn regex_compiles(pattern: Seq<char>, case_insensitive: bool) -> bool;

/// Whether the regular expression compiled from `pattern` with the given
/// case sensitivity matches somewhere in `line`; a function of its
/// arguments alone.
pub uninterp spec fn regex_match(pattern: Seq<char>, case_insensitive: bool, line: Seq<char>) -> bool;

/// Unicode-aware lowercase folding of a character sequence; a function of
/// the characters alone.
pub uninterp spec fn folded(s: Seq<char>) -> Seq<char>;

/// Relies on regex::RegexBuilder::build: compiling a pattern is a pure
/// function of the pattern text and the builder flags, here Unicode mode on
/// and the given case sensitivity.
#[verifier::external_body]
fn compile_regex(pattern: &str, case_insensitive: bool) -> (r: Result<regex::Regex, regex::Error>)
    ensures
        r is Ok <==> regex_compiles(pattern@, case_insensitive),
{
    regex::RegexBuilder::new(pattern).case_insensitive(case_insensitive).unicode(true).build()
}

/// Relies on str::contains with a &str pattern: true exactly when the
/// needle occurs in the haystack as a contiguous substring.
#[verifier::external_body]
fn str_contains(hay: &str, needle: &str) -> (r: bool)
    ensures
        r == contains_sub(hay@, needle@),
{
    hay.contains(needle)
}

/// Relies on str::to_lowercase: Unicode-aware lowercasing, a function of
/// the input characters alone.
#[verifier::external_body]
fn lowercase(s: &str) -> (r: String)
    ensures
        r@ == folded(s@),
{
    s.to_lowercase()
}

/// A literal matcher: matches a line that contains its query as a
/// substring, case-folded first when the configuration asks for it.
pub struct StringMatcher(pub String);

/// A regular-expression matcher. The case sensitivity is fixed when the
/// matcher is built and is not read from the configuration afterwards.
/// `compiled` is always the result of compiling `pattern` with
/// `case_insensitive`: the only constructor establishes that.
pub struct RegexMatcher {
    pattern: String,
    case_insensitive: bool,
    compiled: regex::Regex,
}

/// Relies on regex::Regex::is_match, and on the constructor invariant of
/// RegexMatcher: `m.compiled` was built from `m.pattern` with
/// `m.case_insensitive`, so the answer is `regex_match` of those values.
#[verifier::external_body]
fn regex_is_match(m: &RegexMatcher, line: &str) -> (r: bool)
    ensures
        r == regex_match(m.pattern@, m.case_insensitive, line@),
{
    m.compiled.is_match(line)
}

/// One matching strategy: a line either contains a literal query or is
/// matched by a regular expression.
pub enum Matcher {
    Literal(StringMatcher),
    Regex(RegexMatcher),
}

/// The mathematical content of a matcher: the query or pattern text, and
/// for a regular expression its fixed case sensitivity.
pub enum MatcherModel {
    Lit(Seq<char>),
    Re(Seq<char>, bool),
}

pub closed spec fn matcher_model(m: Matcher) -> MatcherModel {
    match m {
        Matcher::Literal(sm) => MatcherModel::Lit(sm.0@),
        Matcher::Regex(rm) => MatcherModel::Re(rm.pattern@, rm.case_insensitive),
    }
}

/// What it means for a matcher to accept a line: literal matchers test
/// substring containment, folding both sides when `ignore_case` is set;
/// regular-expression matchers go only by their own fixed flag.
pub open spec fn model_matches(m: MatcherModel, ignore_case: bool, line: Seq<char>) -> bool {
    match m {
        MatcherModel::Lit(q) => if ignore_case {
            contains_sub(folded(line), folded(q))
        } else {
            contains_sub(line, q)
        },
        MatcherModel::Re(p, ci) => regex_match(p, ci, line),
    }
}

pub open spec fn matcher_matches(m: Matcher, ignore_case: bool, line: Seq<char>) -> bool {
    model_matches(matcher_model(m), ignore_case, line)
}

/// A syntactically invalid regular-expression pattern.
#[derive(Debug)]
pub struct PatternError {
    pub pattern: String,
}

impl StringMatcher {
    /// A literal matcher for `query`.
    pub fn new(query: &str) -> (m: Matcher)
        ensures
            matcher_model(m) == MatcherModel::Lit(query@),
    {
        Matcher::Literal(StringMatcher(String::from_str(query)))
    }
}

impl RegexMatcher {
    /// A regular-expression matcher for `pattern`, with its case
    /// sensitivity fixed at construction time. Fails exactly when the
    /// pattern does not compile.
    pub fn new(pattern: &str, case_insensitive: bool) -> (r: Result<Matcher, PatternError>)
        ensures
            r is Ok <==> regex_compiles(pattern@, case_insensitive),
            r matches Ok(m) ==> matcher_model(m) == MatcherModel::Re(pattern@, case_insensitive),
            r matches Err(e) ==> e.pattern@ == pattern@,
    {
        match compile_regex(pattern, case_insensitive) {
            Ok(compiled) => Ok(
                Matcher::Regex(
                    RegexMatcher {
                        pattern: String::from_str(pattern),
                        case_insensitive,
                        compiled,
                    },
                ),
            ),
            Err(_) => Err(PatternError { pattern: String::from_str(pattern) }),
        }
    }
}

impl Matcher {
    /// Whether this matcher accepts `line` under the configuration's
    /// case-sensitivity flag.
    pub fn match_line(&self, conf: &Config, line: &str) -> (r: bool)
        ensures
            r == matcher_matches(*self, conf.ignore_case, line@),
    {
        match self {
            Matcher::Literal(sm) => {
                if conf.ignore_case {
                    let folded_line = lowercase(line);
                    let folded_query = lowercase(sm.0.as_str());
                    str_contains(folded_line.as_str(), folded_query.as_str())
                } else {
                    str_contains(line, sm.0.as_str())
                }
            },
            Matcher::Regex(rm) => regex_is_match(rm, line),
        }
    }
}

/// With case folding off, a literal matcher accepts exactly the lines that
/// contain its query as an exact-case substring.
pub proof fn lemma_literal_exact_case(m: Matcher, q: Seq<char>, line: Seq<char>)
    requires
        matcher_model(m) == MatcherModel::Lit(q),
    ensures
        matcher_matches(m, false, line) == contains_sub(line, q),
{
}

/// With case folding on, a literal matcher accepts exactly the lines whose
/// folded text contains the folded query.
pub proof fn lemma_literal_folded(m: Matcher, q: Seq<char>, line: Seq<char>)
    requires
        matcher_model(m) == MatcherModel::Lit(q),
    ensures
        matcher_matches(m, true, line) == contains_sub(folded(line), folded(q)),
{
}

/// A regular-expression matcher answers the same for a line whatever the
/// configuration's case-sensitivity flag says at match time: only the flag
/// fixed at its construction counts.
pub proof fn lemma_regex_ignores_config(m: Matcher, ic1: bool, ic2: bool, line: Seq<char>)
    requires
        m is Regex,
    ensures
        matcher_matches(m, ic1, line) == matcher_matches(m, ic2, line),
{
}

} // verus!
