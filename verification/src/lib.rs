//! A minimal line-oriented text search: given a query and a text buffer,
//! return every line that contains the query, case-sensitively or after
//! lowercasing both sides, in the order the lines appear in the buffer.

pub mod laws;
mod lines;
mod matching;

pub use crate::lines::lemma_trailing_terminator_irrelevant;
pub use crate::lines::line_seq;
pub use crate::lines::lines_of;
pub use crate::matching::contains_at;
pub use crate::matching::contains_seq;
pub use crate::matching::contains_substring;
pub use crate::matching::lower_of;

use vstd::prelude::*;

verus! {

/// What one invocation runs with: the query, the file to search, and
/// whether matching ignores case.
pub struct Config {
    pub query: String,
    pub file_path: String,
    pub ignore_case: bool,
}

/// The two terminal failures: too few command-line arguments, and a file
/// that could not be read or decoded.
#[derive(Debug, PartialEq, Eq)]
pub enum Error {
    InsufficientArguments,
    FileReadError { cause: String },
}

impl Config {
    /// Builds the configuration from the argument list (program name, query,
    /// file path, in that order) and the case-insensitivity toggle that the
    /// caller read from the environment.
    pub fn build(args: &[String], ignore_case: bool) -> (result: Result<Config, Error>)
        ensures
            match result {
                Ok(config) => {
                    &&& args@.len() >= 3
                    &&& config.query@ == args@[1]@
                    &&& config.file_path@ == args@[2]@
                    &&& config.ignore_case == ignore_case
                },
                Err(e) => args@.len() < 3 && e == Error::InsufficientArguments,
            },
    {
        if args.len() < 3 {
            return Err(Error::InsufficientArguments);
        }
        let query: String = args[1].clone();
        let file_path: String = args[2].clone();
        Ok(Config { query, file_path, ignore_case })
    }
}

/// The lines of `contents` that contain `query`, in their original order.
pub open spec fn search_spec(query: Seq<char>, contents: Seq<char>) -> Seq<Seq<char>> {
    line_seq(contents).filter(|line: Seq<char>| contains_seq(line, query))
}

/// The lines of `contents` whose lowercased form contains the lowercased
/// `query`, in their original order and with their original characters.
pub open spec fn search_case_insensitive_spec(query: Seq<char>, contents: Seq<char>) -> Seq<
    Seq<char>,
> {
    line_seq(contents).filter(|line: Seq<char>| contains_seq(lower_of(line), lower_of(query)))
}

/// Appending one element to a sequence extends its filtered form by that
/// element exactly when the element satisfies the predicate.
proof fn lemma_filter_push<A>(s: Seq<A>, x: A, pred: spec_fn(A) -> bool)
    ensures
        s.push(x).filter(pred) == if pred(x) {
            s.filter(pred).push(x)
        } else {
            s.filter(pred)
        },
{
    reveal(Seq::filter);
    assert(s.push(x).drop_last() =~= s);
    assert(s.push(x).last() == x);
}

/// Case-sensitive search: every line of `contents` that contains `query`
/// as an exact substring, in original order, and no others.
pub fn search<'a>(query: &str, contents: &'a str) -> (results: Vec<&'a str>)
    ensures
        results.deep_view() == search_spec(query@, contents@),
{
    let lines: Vec<&'a str> = lines_of(contents);
    let ghost all = line_seq(contents@);
    let ghost pred = |line: Seq<char>| contains_seq(line, query@);
    let mut results: Vec<&'a str> = Vec::new();
    let mut idx: usize = 0;
    proof {
        assert(all.take(0).filter(pred) =~= Seq::<Seq<char>>::empty());
        assert(results.deep_view() =~= Seq::<Seq<char>>::empty());
    }
    while idx < lines.len()
        invariant
            all == line_seq(contents@),
            pred == (|line: Seq<char>| contains_seq(line, query@)),
            lines.deep_view() == all,
            lines@.len() == all.len(),
            0 <= idx <= lines@.len(),
            results.deep_view() == all.take(idx as int).filter(pred),
        decreases lines@.len() - idx,
    {
        let ghost old_results = results.deep_view();
        let line: &'a str = lines[idx];
        proof {
            assert(line@ == all[idx as int]);
        }
        let matched: bool = contains_substring(line, query);
        proof {
            assert(matched == pred(line@));
        }
        if matched {
            results.push(line);
            proof {
                assert(results.deep_view() =~= old_results.push(line@));
            }
        }
        proof {
            assert(all.take(idx + 1) =~= all.take(idx as int).push(all[idx as int]));
            lemma_filter_push(all.take(idx as int), all[idx as int], pred);
        }
        idx += 1;
    }
    proof {
        assert(all.take(all.len() as int) =~= all);
    }
    results
}

/// Case-insensitive search: every line of `contents` whose lowercased form
/// contains the lowercased `query`; the returned slices are the original,
/// non-lowercased lines, in original order.
pub fn search_case_insensitive<'a>(query: &str, contents: &'a str) -> (results: Vec<&'a str>)
    ensures
        results.deep_view() == search_case_insensitive_spec(query@, contents@),
{
    let query_lower: String = crate::matching::lowercase(query);
    let lines: Vec<&'a str> = lines_of(contents);
    let ghost all = line_seq(contents@);
    let ghost pred = |line: Seq<char>| contains_seq(lower_of(line), lower_of(query@));
    let mut results: Vec<&'a str> = Vec::new();
    let mut idx: usize = 0;
    proof {
        assert(all.take(0).filter(pred) =~= Seq::<Seq<char>>::empty());
        assert(results.deep_view() =~= Seq::<Seq<char>>::empty());
    }
    while idx < lines.len()
        invariant
            all == line_seq(contents@),
            pred == (|line: Seq<char>| contains_seq(lower_of(line), lower_of(query@))),
            query_lower@ == lower_of(query@),
            lines.deep_view() == all,
            lines@.len() == all.len(),
            0 <= idx <= lines@.len(),
            results.deep_view() == all.take(idx as int).filter(pred),
        decreases lines@.len() - idx,
    {
        let ghost old_results = results.deep_view();
        let line: &'a str = lines[idx];
        proof {
            assert(line@ == all[idx as int]);
        }
        let line_lower: String = crate::matching::lowercase(line);
        let matched: bool = contains_substring(line_lower.as_str(), query_lower.as_str());
        proof {
            assert(matched == pred(line@));
        }
        if matched {
            results.push(line);
            proof {
                assert(results.deep_view() =~= old_results.push(line@));
            }
        }
        proof {
            assert(all.take(idx + 1) =~= all.take(idx as int).push(all[idx as int]));
            lemma_filter_push(all.take(idx as int), all[idx as int], pred);
        }
        idx += 1;
    }
    proof {
        assert(all.take(all.len() as int) =~= all);
    }
    results
}

/// The search step of a run: dispatches to the variant that the
/// configuration selects.
pub fn run_search<'a>(config: &Config, contents: &'a str) -> (results: Vec<&'a str>)
    ensures
        config.ignore_case ==> results.deep_view() == search_case_insensitive_spec(
            config.query@,
            contents@,
        ),
        !config.ignore_case ==> results.deep_view() == search_spec(config.query@, contents@),
{
    if config.ignore_case {
        search_case_insensitive(config.query.as_str(), contents)
    } else {
        search(config.query.as_str(), contents)
    }
}

} // verus!
