use vstd::prelude::*;

use crate::matchers::{matcher_model, regex_compiles, MatcherModel, RegexMatcher, StringMatcher};
use crate::text::{spec_lines, split_lines};
use crate::{same_flags, Config};

verus! {

/// One recognized command-line option, as the argument parser hands it to
/// the validating constructor. `Extend` carries the option's value;
/// `FromFile` carries the contents of the pattern file, already read;
/// `Unknown` carries the text of an unrecognized flag.
pub enum RawOption {
    Extended,
    Fixed,
    IgnoreCase,
    Count,
    ListFiles,
    Numbers,
    Quiet,
    Suppress,
    InvertMatch,
    Extend(String),
    FromFile(String),
    Unknown(String),
}

/// Why a configuration could not be built.
#[derive(Debug)]
pub enum ConfigError {
    ConflictingMatchModes,
    MissingPattern,
    InvalidPattern(String),
    UnknownOption(String),
}

/// The mathematical content of a configuration error.
pub enum ErrorModel {
    Conflict,
    NoPattern,
    BadPattern(Seq<char>),
    BadOption(Seq<char>),
}

pub open spec fn error_model(e: ConfigError) -> ErrorModel {
    match e {
        ConfigError::ConflictingMatchModes => ErrorModel::Conflict,
        ConfigError::MissingPattern => ErrorModel::NoPattern,
        ConfigError::InvalidPattern(p) => ErrorModel::BadPattern(p@),
        ConfigError::UnknownOption(s) => ErrorModel::BadOption(s@),
    }
}

pub open spec fn spec_message(e: ConfigError) -> Seq<char> {
    match e {
        ConfigError::ConflictingMatchModes => "Cannot use both -F and -E"@,
        ConfigError::MissingPattern => "missing pattern for matching"@,
        ConfigError::InvalidPattern(p) => "invalid pattern: "@ + p@,
        ConfigError::UnknownOption(s) => "unknown flag: "@ + s@,
    }
}

impl ConfigError {
    /// A descriptive message for the caller's error report.
    pub fn message(&self) -> (r: String)
        ensures
            r@ == spec_message(*self),
    {
        match self {
            ConfigError::ConflictingMatchModes => String::from_str("Cannot use both -F and -E"),
            ConfigError::MissingPattern => String::from_str("missing pattern for matching"),
            ConfigError::InvalidPattern(p) => String::from_str("invalid pattern: ").concat(
                p.as_str(),
            ),
            ConfigError::UnknownOption(s) => String::from_str("unknown flag: ").concat(s.as_str()),
        }
    }
}

/// The state a configuration build passes through: the nine flags, the
/// matcher models collected so far, and whether any pattern-supplying
/// option has been seen.
#[verifier::ext_equal]
pub struct BuildState {
    pub all_regex: bool,
    pub all_strings: bool,
    pub ignore_case: bool,
    pub quiet: bool,
    pub list_matched_files: bool,
    pub show_count: bool,
    pub show_line_numbers: bool,
    pub suppress_missing: bool,
    pub invert_match: bool,
    pub patterns: Seq<MatcherModel>,
    pub has_patterns: bool,
}

pub open spec fn init_state() -> BuildState {
    BuildState {
        all_regex: false,
        all_strings: false,
        ignore_case: false,
        quiet: false,
        list_matched_files: false,
        show_count: false,
        show_line_numbers: false,
        suppress_missing: false,
        invert_match: false,
        patterns: seq![],
        has_patterns: false,
    }
}

/// The matcher models held by a configuration, in order.
pub open spec fn patterns_model(c: Config) -> Seq<MatcherModel> {
    c.patterns@.map_values(|m: crate::Matcher| matcher_model(m))
}

/// The build state a configuration value stands for.
pub open spec fn state_of(c: Config, has_patterns: bool) -> BuildState {
    BuildState {
        all_regex: c.all_regex,
        all_strings: c.all_strings,
        ignore_case: c.ignore_case,
        quiet: c.quiet,
        list_matched_files: c.list_matched_files,
        show_count: c.show_count,
        show_line_numbers: c.show_line_numbers,
        suppress_missing: c.suppress_missing,
        invert_match: c.invert_match,
        patterns: patterns_model(c),
        has_patterns: has_patterns,
    }
}

/// The regular-expression matcher models for the pattern list `lines` from
/// position `k` on, or the first pattern that does not compile.
pub open spec fn regex_models_from(lines: Seq<Seq<char>>, ci: bool, k: int) -> Result<
    Seq<MatcherModel>,
    ErrorModel,
>
    decreases lines.len() - k,
{
    if k < 0 || k >= lines.len() {
        Ok(seq![])
    } else if !regex_compiles(lines[k], ci) {
        Err(ErrorModel::BadPattern(lines[k]))
    } else {
        match regex_models_from(lines, ci, k + 1) {
            Ok(rest) => Ok(seq![MatcherModel::Re(lines[k], ci)] + rest),
            Err(e) => Err(e),
        }
    }
}

/// The literal matcher models for the pattern list `lines` from `k` on.
pub open spec fn literal_models_from(lines: Seq<Seq<char>>, k: int) -> Seq<MatcherModel>
    decreases lines.len() - k,
{
    if k < 0 || k >= lines.len() {
        seq![]
    } else {
        seq![MatcherModel::Lit(lines[k])] + literal_models_from(lines, k + 1)
    }
}

proof fn lemma_literal_models_len(lines: Seq<Seq<char>>, k: int)
    requires
        0 <= k <= lines.len(),
    ensures
        literal_models_from(lines, k).len() == lines.len() - k,
    decreases lines.len() - k,
{
    if k < lines.len() {
        lemma_literal_models_len(lines, k + 1);
    }
}

proof fn lemma_regex_models_len(lines: Seq<Seq<char>>, ci: bool, k: int)
    requires
        0 <= k <= lines.len(),
        regex_models_from(lines, ci, k) is Ok,
    ensures
        regex_models_from(lines, ci, k)->Ok_0.len() == lines.len() - k,
    decreases lines.len() - k,
{
    if k < lines.len() {
        lemma_regex_models_len(lines, ci, k + 1);
    }
}

/// What one option does to the build state. Specifying both match modes is
/// an error; `Extend` appends one literal pattern per line of its value;
/// `FromFile` appends one pattern per line of the file, as regular
/// expressions when the extended mode is on and as literals otherwise; an
/// unrecognized flag is an error. A pattern-supplying option waives the
/// positional pattern only when it supplied at least one pattern.
pub open spec fn apply_option(st: BuildState, o: RawOption) -> Result<BuildState, ErrorModel> {
    match o {
        RawOption::Extended => if st.all_strings {
            Err(ErrorModel::Conflict)
        } else {
            Ok(BuildState { all_regex: true, ..st })
        },
        RawOption::Fixed => if st.all_regex {
            Err(ErrorModel::Conflict)
        } else {
            Ok(BuildState { all_strings: true, ..st })
        },
        RawOption::IgnoreCase => Ok(BuildState { ignore_case: true, ..st }),
        RawOption::Count => Ok(BuildState { show_count: true, ..st }),
        RawOption::ListFiles => Ok(BuildState { list_matched_files: true, ..st }),
        RawOption::Numbers => Ok(BuildState { show_line_numbers: true, ..st }),
        RawOption::Quiet => Ok(BuildState { quiet: true, ..st }),
        RawOption::Suppress => Ok(BuildState { suppress_missing: true, ..st }),
        RawOption::InvertMatch => Ok(BuildState { invert_match: true, ..st }),
        RawOption::Extend(v) => Ok(
            BuildState {
                patterns: st.patterns + literal_models_from(spec_lines(v@), 0),
                has_patterns: st.has_patterns || spec_lines(v@).len() > 0,
                ..st
            },
        ),
        RawOption::FromFile(contents) => if st.all_regex {
            match regex_models_from(spec_lines(contents@), st.ignore_case, 0) {
                Ok(ms) => Ok(
                    BuildState {
                        patterns: st.patterns + ms,
                        has_patterns: st.has_patterns || spec_lines(contents@).len() > 0,
                        ..st
                    },
                ),
                Err(e) => Err(e),
            }
        } else {
            Ok(
                BuildState {
                    patterns: st.patterns + literal_models_from(spec_lines(contents@), 0),
                    has_patterns: st.has_patterns || spec_lines(contents@).len() > 0,
                    ..st
                },
            )
        },
        RawOption::Unknown(s) => Err(ErrorModel::BadOption(s@)),
    }
}

/// The options from position `i` on, applied in order to `st`.
pub open spec fn build_opts_from(st: BuildState, opts: Seq<RawOption>, i: int) -> Result<
    BuildState,
    ErrorModel,
>
    decreases opts.len() - i,
{
    if i < 0 || i >= opts.len() {
        Ok(st)
    } else {
        match apply_option(st, opts[i]) {
            Ok(st2) => build_opts_from(st2, opts, i + 1),
            Err(e) => Err(e),
        }
    }
}

/// When no positional arguments remain to name sources, the single stdin
/// sentinel takes their place.
pub open spec fn finish_sources(pos: Seq<Seq<char>>) -> Seq<Seq<char>> {
    if pos.len() == 0 {
        seq![seq!['-']]
    } else {
        pos
    }
}

/// The positional phase of the build: when no pattern-supplying option was
/// seen, the first positional argument is required and becomes the sole
/// pattern (a regular expression in extended mode, a literal otherwise);
/// every remaining positional names a source.
pub open spec fn finish_build(st: BuildState, pos: Seq<Seq<char>>) -> Result<
    (BuildState, Seq<Seq<char>>),
    ErrorModel,
> {
    if st.has_patterns {
        Ok((st, finish_sources(pos)))
    } else if pos.len() == 0 {
        Err(ErrorModel::NoPattern)
    } else {
        let q = pos[0];
        let rest = pos.skip(1);
        if st.all_regex {
            if regex_compiles(q, st.ignore_case) {
                Ok(
                    (
                        BuildState {
                            patterns: st.patterns.push(MatcherModel::Re(q, st.ignore_case)),
                            has_patterns: true,
                            ..st
                        },
                        finish_sources(rest),
                    ),
                )
            } else {
                Err(ErrorModel::BadPattern(q))
            }
        } else {
            Ok(
                (
                    BuildState {
                        patterns: st.patterns.push(MatcherModel::Lit(q)),
                        has_patterns: true,
                        ..st
                    },
                    finish_sources(rest),
                ),
            )
        }
    }
}

/// What building a configuration from an option list and the positional
/// arguments returns: the final build state and the source list, or the
/// first configuration error.
pub open spec fn spec_build(opts: Seq<RawOption>, pos: Seq<Seq<char>>) -> Result<
    (BuildState, Seq<Seq<char>>),
    ErrorModel,
> {
    match build_opts_from(init_state(), opts, 0) {
        Ok(st) => finish_build(st, pos),
        Err(e) => Err(e),
    }
}

/// Append one regular-expression matcher per line of `value` to the
/// configuration, with the configuration's current case sensitivity.
fn push_regex_patterns(cfg: &mut Config, value: &str) -> (r: Result<(), ConfigError>)
    ensures
        final(cfg).sources == old(cfg).sources,
        same_flags(*final(cfg), *old(cfg)),
        match r {
            Ok(_) => {
                &&& regex_models_from(spec_lines(value@), old(cfg).ignore_case, 0) is Ok
                &&& patterns_model(*final(cfg)) == patterns_model(*old(cfg)) + regex_models_from(
                    spec_lines(value@),
                    old(cfg).ignore_case,
                    0,
                )->Ok_0
            },
            Err(e) => regex_models_from(spec_lines(value@), old(cfg).ignore_case, 0)
                == Err::<Seq<MatcherModel>, ErrorModel>(error_model(e)),
        },
{
    let lines = split_lines(value);
    let ghost lseq = lines.deep_view();
    let ghost pm0 = patterns_model(*cfg);
    let ghost ci = cfg.ignore_case;
    let mut k: usize = 0;
    proof {
        assert(lseq.len() == lines@.len());
        assert(patterns_model(*cfg).skip(pm0.len() as int) =~= Seq::<MatcherModel>::empty());
    }
    while k < lines.len()
        invariant
            0 <= k <= lines@.len(),
            lseq == lines.deep_view(),
            lseq == spec_lines(value@),
            lseq.len() == lines@.len(),
            cfg.ignore_case == ci,
            ci == old(cfg).ignore_case,
            cfg.sources == old(cfg).sources,
            same_flags(*cfg, *old(cfg)),
            pm0 == patterns_model(*old(cfg)),
            pm0.len() <= patterns_model(*cfg).len(),
            patterns_model(*cfg).subrange(0, pm0.len() as int) == pm0,
            regex_models_from(lseq, ci, 0) == (match regex_models_from(lseq, ci, k as int) {
                Ok(rest) => Ok::<Seq<MatcherModel>, ErrorModel>(
                    patterns_model(*cfg).skip(pm0.len() as int) + rest,
                ),
                Err(e) => Err::<Seq<MatcherModel>, ErrorModel>(e),
            }),
        decreases lines@.len() - k,
    {
        let line: &str = lines[k];
        proof {
            assert(lseq[k as int] == line@);
        }
        match RegexMatcher::new(line, cfg.ignore_case) {
            Ok(m) => {
                let ghost before = patterns_model(*cfg);
                cfg.push_matcher(m);
                proof {
                    assert(patterns_model(*cfg) =~= before.push(
                        MatcherModel::Re(line@, ci),
                    ));
                    assert(patterns_model(*cfg).subrange(0, pm0.len() as int) =~= pm0);
                    let rm_k1 = regex_models_from(lseq, ci, k as int + 1);
                    if rm_k1 is Ok {
                        assert(patterns_model(*cfg).skip(pm0.len() as int) =~= before.skip(
                            pm0.len() as int,
                        ).push(MatcherModel::Re(lseq[k as int], ci)));
                        assert(before.skip(pm0.len() as int) + (seq![
                            MatcherModel::Re(lseq[k as int], ci),
                        ] + rm_k1->Ok_0) =~= patterns_model(*cfg).skip(pm0.len() as int)
                            + rm_k1->Ok_0);
                    }
                }
            },
            Err(e) => {
                proof {
                    assert(regex_models_from(lseq, ci, k as int) == Err::<
                        Seq<MatcherModel>,
                        ErrorModel,
                    >(ErrorModel::BadPattern(lseq[k as int])));
                }
                return Err(ConfigError::InvalidPattern(e.pattern));
            },
        }
        k += 1;
    }
    proof {
        assert(regex_models_from(lseq, ci, k as int) == Ok::<Seq<MatcherModel>, ErrorModel>(
            seq![],
        ));
        assert(patterns_model(*cfg).skip(pm0.len() as int) + Seq::<MatcherModel>::empty()
            =~= patterns_model(*cfg).skip(pm0.len() as int));
        assert(pm0 + patterns_model(*cfg).skip(pm0.len() as int) =~= patterns_model(*cfg));
    }
    Ok(())
}

/// Append one literal matcher per line of `contents` to the configuration.
fn push_literal_patterns(cfg: &mut Config, contents: &str)
    ensures
        final(cfg).sources == old(cfg).sources,
        same_flags(*final(cfg), *old(cfg)),
        patterns_model(*final(cfg)) == patterns_model(*old(cfg)) + literal_models_from(
            spec_lines(contents@),
            0,
        ),
{
    let lines = split_lines(contents);
    let ghost lseq = lines.deep_view();
    let ghost pm0 = patterns_model(*cfg);
    let mut k: usize = 0;
    proof {
        assert(lseq.len() == lines@.len());
    }
    while k < lines.len()
        invariant
            0 <= k <= lines@.len(),
            lseq == lines.deep_view(),
            lseq == spec_lines(contents@),
            lseq.len() == lines@.len(),
            cfg.sources == old(cfg).sources,
            same_flags(*cfg, *old(cfg)),
            pm0 == patterns_model(*old(cfg)),
            pm0.len() <= patterns_model(*cfg).len(),
            patterns_model(*cfg).subrange(0, pm0.len() as int) == pm0,
            literal_models_from(lseq, 0) == patterns_model(*cfg).skip(pm0.len() as int)
                + literal_models_from(lseq, k as int),
        decreases lines@.len() - k,
    {
        let line: &str = lines[k];
        proof {
            assert(lseq[k as int] == line@);
        }
        let ghost before = patterns_model(*cfg);
        cfg.push_matcher(StringMatcher::new(line));
        proof {
            assert(patterns_model(*cfg) =~= before.push(MatcherModel::Lit(line@)));
            assert(patterns_model(*cfg).subrange(0, pm0.len() as int) =~= pm0);
            assert(patterns_model(*cfg).skip(pm0.len() as int) =~= before.skip(
                pm0.len() as int,
            ).push(MatcherModel::Lit(lseq[k as int])));
            assert(before.skip(pm0.len() as int) + (seq![MatcherModel::Lit(lseq[k as int])]
                + literal_models_from(lseq, k as int + 1)) =~= patterns_model(*cfg).skip(
                pm0.len() as int,
            ) + literal_models_from(lseq, k as int + 1));
        }
        k += 1;
    }
    proof {
        assert(literal_models_from(lseq, k as int) =~= Seq::<MatcherModel>::empty());
        assert(patterns_model(*cfg).skip(pm0.len() as int) + Seq::<MatcherModel>::empty()
            =~= patterns_model(*cfg).skip(pm0.len() as int));
        assert(pm0 + patterns_model(*cfg).skip(pm0.len() as int) =~= patterns_model(*cfg));
    }
}

impl Config {
    /// The validating constructor: turn a fully parsed option set and the
    /// positional arguments into a configuration, or report the first
    /// configuration error. The whole outcome is pinned by `spec_build`,
    /// and every configuration it returns satisfies the validity
    /// invariant: at least one matcher, at least one source, and never
    /// both match modes at once.
    pub fn build(options: &Vec<RawOption>, positionals: &Vec<String>) -> (r: Result<
        Config,
        ConfigError,
    >)
        ensures
            match r {
                Ok(cfg) => spec_build(options@, positionals.deep_view()) == Ok::<
                    (BuildState, Seq<Seq<char>>),
                    ErrorModel,
                >((state_of(cfg, true), cfg.sources.deep_view())),
                Err(e) => spec_build(options@, positionals.deep_view()) == Err::<
                    (BuildState, Seq<Seq<char>>),
                    ErrorModel,
                >(error_model(e)),
            },
            r matches Ok(cfg) ==> cfg.patterns@.len() >= 1,
            r matches Ok(cfg) ==> cfg.sources@.len() >= 1,
            r matches Ok(cfg) ==> !(cfg.all_regex && cfg.all_strings),
    {
        let mut cfg = Config::new();
        let mut has_patterns = false;
        proof {
            assert(patterns_model(cfg) =~= Seq::<MatcherModel>::empty());
            assert(state_of(cfg, has_patterns) =~= init_state());
        }
        let mut idx: usize = 0;
        while idx < options.len()
            invariant
                0 <= idx <= options@.len(),
                cfg.sources@.len() == 0,
                has_patterns ==> cfg.patterns@.len() >= 1,
                !(cfg.all_regex && cfg.all_strings),
                build_opts_from(init_state(), options@, 0) == build_opts_from(
                    state_of(cfg, has_patterns),
                    options@,
                    idx as int,
                ),
            decreases options@.len() - idx,
        {
            let ghost st_before = state_of(cfg, has_patterns);
            let opt = &options[idx];
            match opt {
                RawOption::Extended => {
                    if cfg.all_strings {
                        return Err(ConfigError::ConflictingMatchModes);
                    }
                    cfg.all_regex = true;
                },
                RawOption::Fixed => {
                    if cfg.all_regex {
                        return Err(ConfigError::ConflictingMatchModes);
                    }
                    cfg.all_strings = true;
                },
                RawOption::IgnoreCase => {
                    cfg.ignore_case = true;
                },
                RawOption::Count => {
                    cfg.show_count = true;
                },
                RawOption::ListFiles => {
                    cfg.list_matched_files = true;
                },
                RawOption::Numbers => {
                    cfg.show_line_numbers = true;
                },
                RawOption::Quiet => {
                    cfg.quiet = true;
                },
                RawOption::Suppress => {
                    cfg.suppress_missing = true;
                },
                RawOption::InvertMatch => {
                    cfg.invert_match = true;
                },
                RawOption::Extend(v) => {
                    let before_len = cfg.patterns.len();
                    push_literal_patterns(&mut cfg, v.as_str());
                    proof {
                        lemma_literal_models_len(spec_lines(v@), 0);
                    }
                    if cfg.patterns.len() > before_len {
                        has_patterns = true;
                    }
                },
                RawOption::FromFile(contents) => {
                    let before_len = cfg.patterns.len();
                    if cfg.all_regex {
                        match push_regex_patterns(&mut cfg, contents.as_str()) {
                            Ok(_) => {
                                proof {
                                    lemma_regex_models_len(
                                        spec_lines(contents@),
                                        st_before.ignore_case,
                                        0,
                                    );
                                }
                            },
                            Err(e) => {
                                return Err(e);
                            },
                        }
                    } else {
                        push_literal_patterns(&mut cfg, contents.as_str());
                        proof {
                            lemma_literal_models_len(spec_lines(contents@), 0);
                        }
                    }
                    if cfg.patterns.len() > before_len {
                        has_patterns = true;
                    }
                },
                RawOption::Unknown(s) => {
                    return Err(ConfigError::UnknownOption(s.clone()));
                },
            }
            proof {
                let applied = apply_option(st_before, options@[idx as int]);
                assert(applied is Ok);
                assert(applied->Ok_0 =~= state_of(cfg, has_patterns));
            }
            idx += 1;
        }
        let ghost st_opts = state_of(cfg, has_patterns);
        let ghost pos_dv = positionals.deep_view();
        proof {
            assert(build_opts_from(init_state(), options@, 0) == Ok::<BuildState, ErrorModel>(
                st_opts,
            ));
            assert(pos_dv.len() == positionals@.len());
        }
        if !has_patterns {
            if positionals.len() == 0 {
                return Err(ConfigError::MissingPattern);
            }
            let query = &positionals[0];
            proof {
                assert(pos_dv[0] == query@);
            }
            let ghost before = patterns_model(cfg);
            if cfg.all_regex {
                match RegexMatcher::new(query.as_str(), cfg.ignore_case) {
                    Ok(m) => {
                        cfg.push_matcher(m);
                        proof {
                            assert(patterns_model(cfg) =~= before.push(
                                MatcherModel::Re(query@, st_opts.ignore_case),
                            ));
                        }
                    },
                    Err(_) => {
                        return Err(ConfigError::InvalidPattern(query.clone()));
                    },
                }
            } else {
                cfg.push_matcher(StringMatcher::new(query.as_str()));
                proof {
                    assert(patterns_model(cfg) =~= before.push(MatcherModel::Lit(query@)));
                }
            }
            let ghost st_fin = state_of(cfg, true);
            proof {
                let fb = finish_build(st_opts, pos_dv);
                assert(fb is Ok);
                assert(fb->Ok_0.0 =~= st_fin);
                assert(st_fin.patterns.len() >= 1);
                assert(!(st_fin.all_regex && st_fin.all_strings));
            }
            let mut k: usize = 1;
            while k < positionals.len()
                invariant
                    1 <= k <= positionals@.len(),
                    pos_dv == positionals.deep_view(),
                    pos_dv.len() == positionals@.len(),
                    state_of(cfg, true) == st_fin,
                    cfg.sources.deep_view() == pos_dv.subrange(1, k as int),
                decreases positionals@.len() - k,
            {
                let ghost sources_before = cfg.sources.deep_view();
                cfg.push_source(positionals[k].clone());
                proof {
                    assert(cfg.sources.deep_view() =~= sources_before.push(pos_dv[k as int]));
                    assert(cfg.sources.deep_view() =~= pos_dv.subrange(1, k as int + 1));
                    assert(state_of(cfg, true) =~= st_fin);
                }
                k += 1;
            }
            proof {
                assert(cfg.sources.deep_view() =~= pos_dv.skip(1));
            }
        } else {
            let ghost st_fin = state_of(cfg, true);
            proof {
                let fb = finish_build(st_opts, pos_dv);
                assert(fb is Ok);
                assert(fb->Ok_0.0 =~= st_fin);
                assert(st_fin.patterns.len() >= 1);
                assert(!(st_fin.all_regex && st_fin.all_strings));
            }
            let mut k: usize = 0;
            while k < positionals.len()
                invariant
                    0 <= k <= positionals@.len(),
                    pos_dv == positionals.deep_view(),
                    pos_dv.len() == positionals@.len(),
                    state_of(cfg, true) == st_fin,
                    cfg.sources.deep_view() == pos_dv.subrange(0, k as int),
                decreases positionals@.len() - k,
            {
                let ghost sources_before = cfg.sources.deep_view();
                cfg.push_source(positionals[k].clone());
                proof {
                    assert(cfg.sources.deep_view() =~= sources_before.push(pos_dv[k as int]));
                    assert(cfg.sources.deep_view() =~= pos_dv.subrange(0, k as int + 1));
                    assert(state_of(cfg, true) =~= st_fin);
                }
                k += 1;
            }
            proof {
                assert(cfg.sources.deep_view() =~= pos_dv);
            }
        }
        let ghost st_fin = state_of(cfg, true);
        let ghost sources_named = cfg.sources.deep_view();
        if cfg.get_sources().len() == 0 {
            proof {
                assert(sources_named.len() == 0);
            }
            cfg.push_source(String::from_str("-"));
            proof {
                reveal_strlit("-");
                assert("-"@ =~= seq!['-']);
                assert(cfg.sources.deep_view() =~= seq![seq!['-']]);
                assert(state_of(cfg, true) =~= st_fin);
            }
        }
        proof {
            assert(cfg.sources.deep_view() =~= finish_sources(sources_named));
            let fb = finish_build(st_opts, pos_dv);
            assert(fb is Ok);
            assert(fb->Ok_0.0 =~= state_of(cfg, true));
            assert(fb->Ok_0.1 =~= cfg.sources.deep_view());
            assert(fb == Ok::<(BuildState, Seq<Seq<char>>), ErrorModel>(
                (state_of(cfg, true), cfg.sources.deep_view()),
            ));
            assert(patterns_model(cfg).len() >= 1);
            assert(cfg.patterns@.len() >= 1);
            assert(cfg.sources@.len() >= 1);
            assert(!(cfg.all_regex && cfg.all_strings));
        }
        Ok(cfg)
    }
}

/// When no positional argument remains to name a source, a successful
/// build reads from stdin: its source list is exactly the stdin sentinel,
/// once.
pub proof fn lemma_default_source_is_stdin(
    st: BuildState,
    pos: Seq<Seq<char>>,
    st2: BuildState,
    srcs: Seq<Seq<char>>,
)
    requires
        finish_build(st, pos) == Ok::<(BuildState, Seq<Seq<char>>), ErrorModel>((st2, srcs)),
        st.has_patterns ==> pos.len() == 0,
        !st.has_patterns ==> pos.len() <= 1,
    ensures
        srcs == seq![seq!['-']],
{
    if !st.has_patterns {
        assert(pos.len() == 1);
        assert(pos.skip(1).len() == 0);
    }
}

proof fn lemma_fixed_conflicts(st: BuildState, opts: Seq<RawOption>, i: int)
    requires
        0 <= i,
        st.all_regex,
        exists|j: int| i <= j < opts.len() && opts[j] == RawOption::Fixed,
    ensures
        build_opts_from(st, opts, i) is Err,
    decreases opts.len() - i,
{
    let j = choose|j: int| i <= j < opts.len() && opts[j] == RawOption::Fixed;
    assert(i < opts.len());
    if opts[i] == RawOption::Fixed {
    } else {
        match apply_option(st, opts[i]) {
            Ok(st2) => {
                assert(st2.all_regex);
                assert(i + 1 <= j < opts.len() && opts[j] == RawOption::Fixed);
                lemma_fixed_conflicts(st2, opts, i + 1);
            },
            Err(_) => {},
        }
    }
}

proof fn lemma_extended_conflicts(st: BuildState, opts: Seq<RawOption>, i: int)
    requires
        0 <= i,
        st.all_strings,
        exists|j: int| i <= j < opts.len() && opts[j] == RawOption::Extended,
    ensures
        build_opts_from(st, opts, i) is Err,
    decreases opts.len() - i,
{
    let j = choose|j: int| i <= j < opts.len() && opts[j] == RawOption::Extended;
    assert(i < opts.len());
    if opts[i] == RawOption::Extended {
    } else {
        match apply_option(st, opts[i]) {
            Ok(st2) => {
                assert(st2.all_strings);
                assert(i + 1 <= j < opts.len() && opts[j] == RawOption::Extended);
                lemma_extended_conflicts(st2, opts, i + 1);
            },
            Err(_) => {},
        }
    }
}

proof fn lemma_modes_conflict_from(st: BuildState, opts: Seq<RawOption>, i: int)
    requires
        0 <= i,
        !st.all_regex,
        !st.all_strings,
        exists|j: int| i <= j < opts.len() && opts[j] == RawOption::Extended,
        exists|j: int| i <= j < opts.len() && opts[j] == RawOption::Fixed,
    ensures
        build_opts_from(st, opts, i) is Err,
    decreases opts.len() - i,
{
    let je = choose|j: int| i <= j < opts.len() && opts[j] == RawOption::Extended;
    let jf = choose|j: int| i <= j < opts.len() && opts[j] == RawOption::Fixed;
    assert(i < opts.len());
    if opts[i] == RawOption::Extended {
        match apply_option(st, opts[i]) {
            Ok(st2) => {
                assert(st2.all_regex);
                assert(i + 1 <= jf < opts.len() && opts[jf] == RawOption::Fixed);
                lemma_fixed_conflicts(st2, opts, i + 1);
            },
            Err(_) => {},
        }
    } else if opts[i] == RawOption::Fixed {
        match apply_option(st, opts[i]) {
            Ok(st2) => {
                assert(st2.all_strings);
                assert(i + 1 <= je < opts.len() && opts[je] == RawOption::Extended);
                lemma_extended_conflicts(st2, opts, i + 1);
            },
            Err(_) => {},
        }
    } else {
        match apply_option(st, opts[i]) {
            Ok(st2) => {
                assert(!st2.all_regex && !st2.all_strings);
                assert(i + 1 <= je < opts.len() && opts[je] == RawOption::Extended);
                assert(i + 1 <= jf < opts.len() && opts[jf] == RawOption::Fixed);
                lemma_modes_conflict_from(st2, opts, i + 1);
            },
            Err(_) => {},
        }
    }
}

/// Asking for both the extended (regular-expression) and the fixed
/// (literal) match mode is a configuration error, wherever the two options
/// stand in the option list and whatever else it holds.
pub proof fn lemma_extended_and_fixed_conflict(opts: Seq<RawOption>, pos: Seq<Seq<char>>)
    requires
        opts.contains(RawOption::Extended),
        opts.contains(RawOption::Fixed),
    ensures
        spec_build(opts, pos) is Err,
{
    let je = choose|j: int| 0 <= j < opts.len() && opts[j] == RawOption::Extended;
    let jf = choose|j: int| 0 <= j < opts.len() && opts[j] == RawOption::Fixed;
    assert(0 <= je < opts.len() && opts[je] == RawOption::Extended);
    assert(0 <= jf < opts.len() && opts[jf] == RawOption::Fixed);
    lemma_modes_conflict_from(init_state(), opts, 0);
}

} // verus!
