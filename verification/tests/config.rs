use novagrep::options::{ConfigError, RawOption};
use novagrep::{search, Config};

fn strings(items: &[&str]) -> Vec<String> {
    items.iter().map(|s| s.to_string()).collect()
}

#[test]
fn sole_positional_becomes_the_pattern() {
    let cfg = Config::build(&vec![RawOption::IgnoreCase], &strings(&["rust", "a.txt", "b.txt"]))
        .unwrap_or_else(|_| panic!("build failed"));
    assert!(cfg.ignore_case);
    assert_eq!(1, cfg.patterns.len());
    assert_eq!(strings(&["a.txt", "b.txt"]), cfg.sources);
}

#[test]
fn no_sources_defaults_to_stdin() {
    let cfg = Config::build(&vec![], &strings(&["duct"]))
        .unwrap_or_else(|_| panic!("build failed"));
    assert_eq!(strings(&["-"]), cfg.sources);
}

#[test]
fn extended_then_fixed_is_an_error() {
    let r = Config::build(
        &vec![RawOption::Extended, RawOption::Fixed],
        &strings(&["duct"]),
    );
    assert!(matches!(r, Err(ConfigError::ConflictingMatchModes)));
}

#[test]
fn fixed_then_extended_is_an_error() {
    let r = Config::build(
        &vec![RawOption::Fixed, RawOption::Extended],
        &strings(&["duct"]),
    );
    assert!(matches!(r, Err(ConfigError::ConflictingMatchModes)));
}

#[test]
fn missing_pattern_is_an_error() {
    let r = Config::build(&vec![], &strings(&[]));
    assert!(matches!(r, Err(ConfigError::MissingPattern)));
}

#[test]
fn unknown_flag_is_an_error() {
    let r = Config::build(
        &vec![RawOption::Unknown("z".to_string())],
        &strings(&["duct"]),
    );
    match r {
        Err(ConfigError::UnknownOption(flag)) => assert_eq!("z", flag),
        _ => panic!("expected an unknown-option error"),
    }
}

#[test]
fn bad_pattern_file_line_is_an_error() {
    let r = Config::build(
        &vec![
            RawOption::Extended,
            RawOption::FromFile("(".to_string()),
        ],
        &strings(&[]),
    );
    match r {
        Err(ConfigError::InvalidPattern(p)) => assert_eq!("(", p),
        _ => panic!("expected an invalid-pattern error"),
    }
}

#[test]
fn extend_patterns_are_literal() {
    // "(" is not a valid regular expression, but it is a fine literal.
    let cfg = Config::build(&vec![RawOption::Extend("(".to_string())], &strings(&[]))
        .unwrap_or_else(|_| panic!("build failed"));
    assert_eq!(1, cfg.patterns.len());
    let results = search(&cfg, "f(x)\nplain");
    assert_eq!(1, results.len());
    assert_eq!("f(x)", results[0].line);
}

#[test]
fn empty_extend_value_does_not_waive_the_pattern() {
    let r = Config::build(&vec![RawOption::Extend(String::new())], &strings(&[]));
    assert!(matches!(r, Err(ConfigError::MissingPattern)));
    let cfg = Config::build(&vec![RawOption::Extend(String::new())], &strings(&["duct"]))
        .unwrap_or_else(|_| panic!("build failed"));
    assert_eq!(1, cfg.patterns.len());
    assert_eq!(strings(&["-"]), cfg.sources);
}

#[test]
fn bad_positional_regex_is_an_error() {
    let r = Config::build(&vec![RawOption::Extended], &strings(&["("]));
    assert!(matches!(r, Err(ConfigError::InvalidPattern(_))));
}

#[test]
fn extend_adds_one_literal_per_line() {
    let cfg = Config::build(
        &vec![RawOption::Extend("du.t\nthree".to_string())],
        &strings(&["x.txt"]),
    )
    .unwrap_or_else(|_| panic!("build failed"));
    assert_eq!(2, cfg.patterns.len());
    assert_eq!(strings(&["x.txt"]), cfg.sources);
    // Taken literally, "du.t" matches nothing in this text.
    let results = search(&cfg, "Rust:\nsafe, fast, productive.\nPick three.");
    assert_eq!(1, results.len());
    assert_eq!("Pick three.", results[0].line);
}

#[test]
fn extend_keeps_every_positional_as_a_source() {
    let cfg = Config::build(
        &vec![RawOption::Extend("duct".to_string())],
        &strings(&["a.txt", "b.txt"]),
    )
    .unwrap_or_else(|_| panic!("build failed"));
    assert_eq!(1, cfg.patterns.len());
    assert_eq!(strings(&["a.txt", "b.txt"]), cfg.sources);
}

#[test]
fn pattern_file_is_literal_by_default() {
    let cfg = Config::build(
        &vec![RawOption::FromFile("du.t\nthree".to_string())],
        &strings(&[]),
    )
    .unwrap_or_else(|_| panic!("build failed"));
    assert_eq!(2, cfg.patterns.len());
    // Taken literally, "du.t" does not occur in the text.
    let results = search(&cfg, "Rust:\nsafe, fast, productive.\nPick three.");
    assert_eq!(1, results.len());
    assert_eq!("Pick three.", results[0].line);
}

#[test]
fn pattern_file_is_regex_in_extended_mode() {
    let cfg = Config::build(
        &vec![
            RawOption::Extended,
            RawOption::FromFile("du.t\nthree".to_string()),
        ],
        &strings(&[]),
    )
    .unwrap_or_else(|_| panic!("build failed"));
    assert_eq!(2, cfg.patterns.len());
    let results = search(&cfg, "Rust:\nsafe, fast, productive.\nPick three.");
    assert_eq!(2, results.len());
}

#[test]
fn every_reporting_flag_is_recorded() {
    let cfg = Config::build(
        &vec![
            RawOption::Count,
            RawOption::ListFiles,
            RawOption::Numbers,
            RawOption::Quiet,
            RawOption::Suppress,
            RawOption::InvertMatch,
        ],
        &strings(&["duct"]),
    )
    .unwrap_or_else(|_| panic!("build failed"));
    assert!(cfg.show_count);
    assert!(cfg.list_matched_files);
    assert!(cfg.show_line_numbers);
    assert!(cfg.quiet);
    assert!(cfg.suppress_missing);
    assert!(cfg.invert_match);
    assert!(!cfg.all_regex);
    assert!(!cfg.all_strings);
    assert!(!cfg.ignore_case);
}

#[test]
fn error_messages_are_descriptive() {
    assert_eq!(
        "Cannot use both -F and -E",
        ConfigError::ConflictingMatchModes.message()
    );
    assert_eq!(
        "missing pattern for matching",
        ConfigError::MissingPattern.message()
    );
    assert_eq!(
        "invalid pattern: (",
        ConfigError::InvalidPattern("(".to_string()).message()
    );
    assert_eq!(
        "unknown flag: z",
        ConfigError::UnknownOption("z".to_string()).message()
    );
}
