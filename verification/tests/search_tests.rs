use minigrep::search;
use minigrep::search_case_insensitive;

#[test]
fn one_result() {
    let query: &str = "duct";
    let content: &str = "\
Rust:
safe, fast, productive.
Pick three.";

    assert_eq!(vec!["safe, fast, productive."], search(query, content));
}

#[test]
fn case_insensitive_result() {
    let query: &str = "safe";
    let content: &str = "\
Rust:
SaFe, FaSt, Productive.
Pick three.";

    assert_eq!(
        vec!["SaFe, FaSt, Productive."],
        search_case_insensitive(query, content)
    );
}

#[test]
fn case_sensitive_search_misses_differently_cased_line() {
    let query: &str = "safe";
    let content: &str = "\
Rust:
SaFe, FaSt, Productive.
Pick three.";

    assert_eq!(Vec::<&str>::new(), search(query, content));
}

#[test]
fn multiple_matches_keep_original_order() {
    let content: &str = "alpha\nbeta\ngamma\nbetamax";
    assert_eq!(vec!["beta", "betamax"], search("beta", content));
}

#[test]
fn empty_query_returns_every_line() {
    let content: &str = "Rust:\nsafe, fast, productive.\nPick three.";
    assert_eq!(
        vec!["Rust:", "safe, fast, productive.", "Pick three."],
        search("", content)
    );
}

#[test]
fn empty_contents_yield_no_matches() {
    assert_eq!(Vec::<&str>::new(), search("anything", ""));
    assert_eq!(Vec::<&str>::new(), search_case_insensitive("anything", ""));
}

#[test]
fn last_line_counts_without_trailing_terminator() {
    assert_eq!(vec!["last"], search("last", "first\nlast"));
}

#[test]
fn trailing_terminator_changes_nothing() {
    let without: &str = "first\nlast";
    let with: &str = "first\nlast\n";
    assert_eq!(search("last", without), search("last", with));
    assert_eq!(search("", without), search("", with));
}

#[test]
fn carriage_return_line_endings_are_stripped() {
    let content: &str = "one\r\ntwo\r\nthree";
    assert_eq!(vec!["one"], search("one", content));
    assert_eq!(vec!["two"], search("two", content));
}

#[test]
fn search_twice_gives_identical_results() {
    let content: &str = "Rust:\nsafe, fast, productive.\nPick three.";
    assert_eq!(search("duct", content), search("duct", content));
    assert_eq!(
        search_case_insensitive("RUST", content),
        search_case_insensitive("RUST", content)
    );
}

#[test]
fn uppercase_query_matches_lowercase_line() {
    assert_eq!(
        vec!["safe, fast, productive."],
        search_case_insensitive("SAFE", "Rust:\nsafe, fast, productive.")
    );
}

#[test]
fn case_insensitive_handles_non_ascii_case() {
    assert_eq!(
        vec!["FÜNF ZEILEN"],
        search_case_insensitive("fünf", "FÜNF ZEILEN\nother")
    );
}
