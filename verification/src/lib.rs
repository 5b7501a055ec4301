pub mod matchers;
pub mod options;
pub mod report;
pub mod text;

pub use matchers::{Matcher, MatcherModel, PatternError, RegexMatcher, StringMatcher};

use crate::matchers::matcher_matches;
use crate::text::{spec_lines, split_lines, str_eq};
use vstd::prelude::*;

verus! {

/// Everything one search run is configured with: the matchers, the sources,
/// and the behaviour flags.
pub struct Config {
    pub sources: Vec<String>,
    pub patterns: Vec<Matcher>,
    pub all_regex: bool,
    pub all_strings: bool,
    pub ignore_case: bool,
    pub quiet: bool,
    pub list_matched_files: bool,
    pub show_count: bool,
    pub show_line_numbers: bool,
    pub suppress_missing: bool,
    pub invert_match: bool,
}

/// The nine behaviour flags of two configurations agree.
pub open spec fn same_flags(a: Config, b: Config) -> bool {
    &&& a.all_regex == b.all_regex
    &&& a.all_strings == b.all_strings
    &&& a.ignore_case == b.ignore_case
    &&& a.quiet == b.quiet
    &&& a.list_matched_files == b.list_matched_files
    &&& a.show_count == b.show_count
    &&& a.show_line_numbers == b.show_line_numbers
    &&& a.suppress_missing == b.suppress_missing
    &&& a.invert_match == b.invert_match
}

impl Config {
    /// An empty configuration: no sources, no matchers, every flag off.
    pub fn new() -> (c: Config)
        ensures
            c.sources@ == Seq::<String>::empty(),
            c.patterns@ == Seq::<Matcher>::empty(),
            !c.all_regex,
            !c.all_strings,
            !c.ignore_case,
            !c.quiet,
            !c.list_matched_files,
            !c.show_count,
            !c.show_line_numbers,
            !c.suppress_missing,
            !c.invert_match,
    {
        Config {
            sources: Vec::new(),
            patterns: Vec::new(),
            all_regex: false,
            all_strings: false,
            ignore_case: false,
            quiet: false,
            list_matched_files: false,
            show_count: false,
            show_line_numbers: false,
            suppress_missing: false,
            invert_match: false,
        }
    }

    /// Append one source identifier; everything else is untouched.
    pub fn push_source(&mut self, source: String)
        ensures
            final(self).sources@ == old(self).sources@.push(source),
            final(self).patterns == old(self).patterns,
            same_flags(*final(self), *old(self)),
    {
        self.sources.push(source);
    }

    /// The configured source identifiers, in the order they were added.
    pub fn get_sources(&self) -> (r: &Vec<String>)
        ensures
            r@ == self.sources@,
    {
        &self.sources
    }

    /// Append one matcher; everything else is untouched.
    pub fn push_matcher(&mut self, matcher: Matcher)
        ensures
            final(self).patterns@ == old(self).patterns@.push(matcher),
            final(self).sources == old(self).sources,
            same_flags(*final(self), *old(self)),
    {
        self.patterns.push(matcher);
    }
}

/// One matched line: its text and its 1-based position within its source.
#[derive(Debug)]
pub struct SearchResult<'a> {
    pub line: &'a str,
    pub linenr: usize,
}

impl<'a> PartialEq for SearchResult<'a> {
    /// Results compare by their text alone, not by their line number.
    fn eq(&self, other: &Self) -> (r: bool) {
        str_eq(self.line, other.line)
    }
}

impl<'a> vstd::std_specs::cmp::PartialEqSpecImpl for SearchResult<'a> {
    open spec fn obeys_eq_spec() -> bool {
        true
    }

    open spec fn eq_spec(&self, other: &Self) -> bool {
        self.line@ == other.line@
    }
}

/// A line is selected when at least one configured matcher accepts it —
/// inverted when `invert_match` asks for the non-matching lines.
pub open spec fn line_selected(c: Config, line: Seq<char>) -> bool {
    let hit = exists|k: int|
        0 <= k < c.patterns@.len() && #[trigger] matcher_matches(
            c.patterns@[k],
            c.ignore_case,
            line,
        );
    if c.invert_match {
        !hit
    } else {
        hit
    }
}

/// The selected lines among `lines` from position `i` on, each paired with
/// its 1-based line number, in source order.
pub open spec fn spec_results_from(c: Config, lines: Seq<Seq<char>>, i: int) -> Seq<
    (Seq<char>, int),
>
    decreases lines.len() - i,
{
    if i < 0 || i >= lines.len() {
        seq![]
    } else {
        let rest = spec_results_from(c, lines, i + 1);
        if line_selected(c, lines[i]) {
            seq![(lines[i], i + 1)] + rest
        } else {
            rest
        }
    }
}

/// What a search of `text` under configuration `c` returns: the selected
/// lines of the text, in order, with their 1-based line numbers.
pub open spec fn spec_search(c: Config, text: Seq<char>) -> Seq<(Seq<char>, int)> {
    spec_results_from(c, spec_lines(text), 0)
}

/// The mathematical content of a list of search results.
pub open spec fn results_view<'a>(rs: Seq<SearchResult<'a>>) -> Seq<(Seq<char>, int)> {
    rs.map_values(|r: SearchResult<'a>| (r.line@, r.linenr as int))
}

/// Scan `contents` line by line and return every selected line with its
/// 1-based line number, in source order.
pub fn search<'a>(config: &Config, contents: &'a str) -> (results: Vec<SearchResult<'a>>)
    ensures
        results_view(results@) == spec_search(*config, contents@),
{
    let lines = split_lines(contents);
    let mut results: Vec<SearchResult<'a>> = Vec::new();
    let mut i: usize = 0;
    proof {
        assert(results_view(results@) =~= Seq::<(Seq<char>, int)>::empty());
    }
    while i < lines.len()
        invariant
            0 <= i <= lines.len(),
            lines.deep_view() == spec_lines(contents@),
            lines.deep_view().len() == lines@.len(),
            spec_search(*config, contents@) == results_view(results@) + spec_results_from(
                *config,
                lines.deep_view(),
                i as int,
            ),
        decreases lines.len() - i,
    {
        let line: &'a str = lines[i];
        let mut hit = false;
        let mut j: usize = 0;
        while j < config.patterns.len() && !hit
            invariant
                0 <= j <= config.patterns@.len(),
                hit ==> exists|k: int|
                    0 <= k < config.patterns@.len() && #[trigger] matcher_matches(
                        config.patterns@[k],
                        config.ignore_case,
                        line@,
                    ),
                !hit ==> forall|k: int|
                    0 <= k < j ==> !(#[trigger] matcher_matches(
                        config.patterns@[k],
                        config.ignore_case,
                        line@,
                    )),
            decreases config.patterns@.len() - j,
        {
            if config.patterns[j].match_line(config, line) {
                hit = true;
            }
            j += 1;
        }
        proof {
            assert(lines.deep_view()[i as int] == line@);
            assert(hit == exists|k: int|
                0 <= k < config.patterns@.len() && #[trigger] matcher_matches(
                    config.patterns@[k],
                    config.ignore_case,
                    line@,
                ));
        }
        let selected = if config.invert_match {
            !hit
        } else {
            hit
        };
        let ghost old_rv = results_view(results@);
        if selected {
            results.push(SearchResult { line, linenr: i + 1 });
            proof {
                assert(results_view(results@) =~= old_rv + seq![(line@, i as int + 1)]);
            }
        }
        proof {
            assert(line_selected(*config, lines.deep_view()[i as int]) == selected);
            assert(results_view(results@) + spec_results_from(
                *config,
                lines.deep_view(),
                i as int + 1,
            ) =~= old_rv + spec_results_from(*config, lines.deep_view(), i as int));
        }
        i += 1;
    }
    results
}

/// For one configuration and one text the search outcome is a single value:
/// two runs of the engine return the same ordered results, since each is
/// pinned to `spec_search` by the engine's contract.
pub proof fn lemma_search_deterministic(
    c: Config,
    text: Seq<char>,
    r1: Seq<(Seq<char>, int)>,
    r2: Seq<(Seq<char>, int)>,
)
    requires
        r1 == spec_search(c, text),
        r2 == spec_search(c, text),
    ensures
        r1 == r2,
{
}

} // verus!
