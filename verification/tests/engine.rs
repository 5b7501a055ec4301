use novagrep::report::report_lines;
use novagrep::{search, Config, RegexMatcher, SearchResult, StringMatcher};

#[test]
fn one_result() {
    let mut cfg = Config::new();
    let query = StringMatcher::new("duct");
    cfg.push_matcher(query);
    let contents = "
Rust:
safe, fast, productive.
Pick three.";

    assert_eq!(
        vec![SearchResult {
            line: "safe, fast, productive.",
            linenr: 1
        }],
        search(&cfg, contents)
    );
    assert_eq!(1, cfg.patterns.len());
}

#[test]
fn multiple_result() {
    let mut cfg = Config::new();
    let query = StringMatcher::new("rUsT");
    cfg.ignore_case = true;
    cfg.push_matcher(query);
    let contents = "\
Rust:
safe, fast, productive.
Pick three.
Trust me.";

    assert_eq!(
        vec![
            SearchResult {
                line: "Rust:",
                linenr: 0,
            },
            SearchResult {
                line: "Trust me.",
                linenr: 0,
            }
        ],
        search(&cfg, contents)
    );
}

#[test]
fn line_numbers_are_one_based() {
    let mut cfg = Config::new();
    cfg.push_matcher(StringMatcher::new("duct"));
    let results = search(&cfg, "\nRust:\nsafe, fast, productive.\nPick three.");
    assert_eq!(1, results.len());
    assert_eq!(3, results[0].linenr);
}

#[test]
fn crlf_line_breaks_are_stripped() {
    let mut cfg = Config::new();
    cfg.push_matcher(StringMatcher::new("beta"));
    let results = search(&cfg, "alpha\r\nbeta\r\ngamma");
    assert_eq!(1, results.len());
    assert_eq!("beta", results[0].line);
    assert_eq!(2, results[0].linenr);
}

#[test]
fn empty_content_has_no_lines() {
    let mut cfg = Config::new();
    cfg.push_matcher(StringMatcher::new(""));
    assert_eq!(0, search(&cfg, "").len());
    cfg.invert_match = true;
    assert_eq!(0, search(&cfg, "").len());
}

#[test]
fn trailing_newline_ends_the_last_line() {
    let mut cfg = Config::new();
    // The empty query is contained in every line.
    cfg.push_matcher(StringMatcher::new(""));
    let results = search(&cfg, "alpha\n");
    assert_eq!(1, results.len());
    assert_eq!("alpha", results[0].line);
}

#[test]
fn bare_trailing_carriage_return_stays_in_the_last_line() {
    let mut cfg = Config::new();
    cfg.push_matcher(StringMatcher::new("x"));
    let results = search(&cfg, "x\r");
    assert_eq!(1, results.len());
    assert_eq!("x\r", results[0].line);
}

#[test]
fn regex_matcher_matches() {
    let mut cfg = Config::new();
    cfg.push_matcher(RegexMatcher::new("du.t", false).unwrap());
    let results = search(&cfg, "Rust:\nsafe, fast, productive.\nPick three.");
    assert_eq!(1, results.len());
    assert_eq!("safe, fast, productive.", results[0].line);
}

#[test]
fn regex_case_insensitivity_is_fixed_at_construction() {
    let mut cfg = Config::new();
    cfg.push_matcher(RegexMatcher::new("rust", true).unwrap());
    // The global flag stays off; only the flag given at construction counts.
    assert!(!cfg.ignore_case);
    let results = search(&cfg, "Rust:\nsafe, fast, productive.\nTrust me.");
    assert_eq!(2, results.len());
    assert_eq!("Rust:", results[0].line);
    assert_eq!("Trust me.", results[1].line);
}

#[test]
fn invalid_regex_is_rejected() {
    let err = RegexMatcher::new("(", false);
    assert!(err.is_err());
    assert_eq!("(", err.err().unwrap().pattern);
}

#[test]
fn invert_match_selects_the_other_lines() {
    let mut cfg = Config::new();
    cfg.push_matcher(StringMatcher::new("duct"));
    cfg.invert_match = true;
    let results = search(&cfg, "Rust:\nsafe, fast, productive.\nPick three.");
    assert_eq!(2, results.len());
    assert_eq!("Rust:", results[0].line);
    assert_eq!("Pick three.", results[1].line);
}

#[test]
fn search_is_deterministic() {
    let mut cfg = Config::new();
    cfg.ignore_case = true;
    cfg.push_matcher(StringMatcher::new("rUsT"));
    let contents = "Rust:\nsafe, fast, productive.\nPick three.\nTrust me.";
    let first = search(&cfg, contents);
    let second = search(&cfg, contents);
    assert_eq!(first.len(), second.len());
    for (a, b) in first.iter().zip(second.iter()) {
        assert_eq!(a.line, b.line);
        assert_eq!(a.linenr, b.linenr);
    }
}

#[test]
fn count_output_is_prefixed_only_with_multiple_sources() {
    let mut cfg = Config::new();
    cfg.push_matcher(StringMatcher::new("a"));
    cfg.show_count = true;
    let results = search(&cfg, "alpha\nbeta\nzzz\ngamma");
    let with_prefix = report_lines(&cfg, "one.txt", &results, true);
    assert_eq!(vec!["one.txt:3".to_string()], with_prefix);
    let bare = report_lines(&cfg, "one.txt", &results, false);
    assert_eq!(vec!["3".to_string()], bare);
}

#[test]
fn count_output_renders_two_digit_counts() {
    let mut cfg = Config::new();
    cfg.push_matcher(StringMatcher::new("x"));
    cfg.show_count = true;
    let contents = "x\nx\nx\nx\nx\nx\nx\nx\nx\nx\nx\nx";
    let results = search(&cfg, contents);
    assert_eq!(12, results.len());
    assert_eq!(
        vec!["12".to_string()],
        report_lines(&cfg, "many.txt", &results, false)
    );
}

#[test]
fn count_output_prints_zero_without_matches() {
    let mut cfg = Config::new();
    cfg.push_matcher(StringMatcher::new("a"));
    cfg.show_count = true;
    let results = search(&cfg, "zzz");
    assert_eq!(
        vec!["one.txt:0".to_string()],
        report_lines(&cfg, "one.txt", &results, true)
    );
    assert_eq!(
        vec!["0".to_string()],
        report_lines(&cfg, "one.txt", &results, false)
    );
}

#[test]
fn list_files_prints_only_the_matching_source() {
    let mut cfg = Config::new();
    cfg.push_matcher(StringMatcher::new("needle"));
    cfg.list_matched_files = true;
    let hit = search(&cfg, "hay\nneedle\nhay");
    let miss = search(&cfg, "hay\nhay");
    assert_eq!(
        vec!["with.txt".to_string()],
        report_lines(&cfg, "with.txt", &hit, true)
    );
    assert_eq!(0, report_lines(&cfg, "without.txt", &miss, true).len());
}

#[test]
fn default_output_prefixes_source_and_line_number() {
    let mut cfg = Config::new();
    cfg.push_matcher(StringMatcher::new("match"));
    cfg.show_line_numbers = true;
    let results = search(&cfg, "x\nmatch\ny");
    assert_eq!(
        vec!["src.txt:2:match".to_string()],
        report_lines(&cfg, "src.txt", &results, true)
    );
    assert_eq!(
        vec!["2:match".to_string()],
        report_lines(&cfg, "src.txt", &results, false)
    );
}

#[test]
fn quiet_suppresses_every_output_line() {
    let mut cfg = Config::new();
    cfg.push_matcher(StringMatcher::new("match"));
    cfg.quiet = true;
    cfg.show_count = true;
    let results = search(&cfg, "match\nmatch");
    assert_eq!(2, results.len());
    assert_eq!(0, report_lines(&cfg, "src.txt", &results, true).len());
}
