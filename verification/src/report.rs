use vstd::prelude::*;

use crate::text::{push_decimal, spec_decimal};
use crate::{results_view, Config, SearchResult};

verus! {

/// The text printed for one selected line: the source identifier (when more
/// than one source is active) and the line number (when asked for), each
/// followed by a colon, then the line itself.
pub open spec fn spec_result_line(
    c: Config,
    source: Seq<char>,
    r: (Seq<char>, int),
    has_next: bool,
) -> Seq<char> {
    let source_prefix = if has_next {
        source + seq![':']
    } else {
        seq![]
    };
    let number_prefix = if c.show_line_numbers {
        spec_decimal(r.1) + seq![':']
    } else {
        seq![]
    };
    source_prefix + number_prefix + r.0
}

/// What is printed for one source, one sequence element per output line.
/// The mutually exclusive modes in priority order: quiet prints nothing;
/// list-files prints the source identifier once when it has a match;
/// count prints the number of matches, zero included (prefixed with the
/// source when more than one source is active); otherwise every selected
/// line is printed, prefixed per `spec_result_line`.
pub open spec fn spec_report(
    c: Config,
    source: Seq<char>,
    results: Seq<(Seq<char>, int)>,
    has_next: bool,
) -> Seq<Seq<char>> {
    if c.quiet {
        seq![]
    } else if c.list_matched_files && results.len() > 0 {
        seq![source]
    } else if c.show_count {
        seq![
            (if has_next {
                source + seq![':']
            } else {
                seq![]
            }) + spec_decimal(results.len() as int),
        ]
    } else {
        Seq::new(results.len(), |i: int| spec_result_line(c, source, results[i], has_next))
    }
}

fn colon() -> (r: &'static str)
    ensures
        r@ == seq![':'],
{
    let r = ":";
    proof {
        reveal_strlit(":");
        assert(r@ =~= seq![':']);
    }
    r
}

/// Render the report for one source: the lines to print, in order, per the
/// priority of the output modes.
pub fn report_lines<'a>(
    config: &Config,
    source: &str,
    results: &Vec<SearchResult<'a>>,
    has_next: bool,
) -> (out: Vec<String>)
    ensures
        out.deep_view() == spec_report(*config, source@, results_view(results@), has_next),
{
    let ghost rv = results_view(results@);
    proof {
        assert(rv.len() == results@.len());
    }
    let mut out: Vec<String> = Vec::new();
    if config.quiet {
        proof {
            assert(out.deep_view() =~= spec_report(*config, source@, rv, has_next));
        }
        return out;
    }
    if config.list_matched_files && results.len() > 0 {
        out.push(String::from_str(source));
        proof {
            assert(out.deep_view() =~= spec_report(*config, source@, rv, has_next));
        }
        return out;
    }
    if config.show_count {
        let mut s = String::new();
        if has_next {
            s.append(source);
            s.append(colon());
        }
        push_decimal(&mut s, results.len());
        out.push(s);
        proof {
            assert(out.deep_view() =~= spec_report(*config, source@, rv, has_next));
        }
        return out;
    }
    let mut i: usize = 0;
    while i < results.len()
        invariant
            0 <= i <= results@.len(),
            rv == results_view(results@),
            rv.len() == results@.len(),
            !config.quiet,
            !(config.list_matched_files && results@.len() > 0),
            !config.show_count,
            out.deep_view() == Seq::new(
                i as nat,
                |k: int| spec_result_line(*config, source@, rv[k], has_next),
            ),
        decreases results@.len() - i,
    {
        let mut s = String::new();
        if has_next {
            s.append(source);
            s.append(colon());
        }
        if config.show_line_numbers {
            push_decimal(&mut s, results[i].linenr);
            s.append(colon());
        }
        s.append(results[i].line);
        proof {
            assert(rv[i as int] == (results@[i as int].line@, results@[i as int].linenr as int));
            assert(s@ =~= spec_result_line(*config, source@, rv[i as int], has_next));
        }
        let ghost old_dv = out.deep_view();
        out.push(s);
        proof {
            assert(out.deep_view() =~= old_dv.push(s@));
            assert(out.deep_view() =~= Seq::new(
                i as nat + 1,
                |k: int| spec_result_line(*config, source@, rv[k], has_next),
            ));
        }
        i += 1;
    }
    proof {
        assert(out.deep_view() =~= spec_report(*config, source@, rv, has_next));
    }
    out
}

} // verus!
