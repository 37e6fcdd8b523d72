use minigrep::search;
use minigrep::search_case_insensitive;
use minigrep::search_case_sensitive;

#[test]
fn should_find_case_sensitive_line() {
    let query = "duct";
    let contents = "Rust:\nsafe, fast, productive.\nPick three.\nDuct tape.";
    assert_eq!(vec!["safe, fast, productive."], search_case_sensitive(query, contents));
}

#[test]
fn should_find_case_insensitive_line() {
    let query = "rUsT";
    let contents = "Rust:\nsafe, fast, productive.\nPick three.\nTrust me.";
    assert_eq!(vec!["Rust:", "Trust me."], search_case_insensitive(query, contents));
}

#[test]
fn exact_search_skips_line_differing_in_case() {
    let query = "duct";
    let contents = "Rust:\nsafe, fast, productive.\nPick three.\nDust tape.";
    assert_eq!(vec!["safe, fast, productive."], search_case_sensitive(query, contents));
}

#[test]
fn empty_query_returns_every_line() {
    let contents = "Rust:\nsafe, fast, productive.\nPick three.";
    let expected = vec!["Rust:", "safe, fast, productive.", "Pick three."];
    assert_eq!(expected, search_case_sensitive("", contents));
    assert_eq!(expected, search_case_insensitive("", contents));
}

#[test]
fn searching_twice_yields_identical_results() {
    let query = "st";
    let contents = "Rust:\nsafe, fast, productive.\nPick three.";
    assert_eq!(search_case_sensitive(query, contents), search_case_sensitive(query, contents));
    assert_eq!(search_case_insensitive(query, contents), search_case_insensitive(query, contents));
}

#[test]
fn case_toggle_on_a_line_differing_only_in_case() {
    let query = "rust";
    let contents = "RuSt";
    assert_eq!(Vec::<&str>::new(), search_case_sensitive(query, contents));
    assert_eq!(vec!["RuSt"], search_case_insensitive(query, contents));
}

#[test]
fn insensitive_search_returns_the_original_line_text() {
    let query = "PRODUCTIVE";
    let contents = "safe, fast, productive.";
    assert_eq!(vec!["safe, fast, productive."], search_case_insensitive(query, contents));
    assert_eq!(Vec::<&str>::new(), search_case_sensitive(query, contents));
}

#[test]
fn empty_contents_yield_no_lines() {
    assert_eq!(Vec::<&str>::new(), search_case_sensitive("a", ""));
    assert_eq!(Vec::<&str>::new(), search_case_insensitive("a", ""));
    assert_eq!(Vec::<&str>::new(), search_case_sensitive("", ""));
}

#[test]
fn trailing_newline_opens_no_extra_line() {
    assert_eq!(vec!["a", "b"], search_case_sensitive("", "a\nb\n"));
    assert_eq!(vec!["a", "b"], search_case_sensitive("", "a\nb"));
    assert_eq!(vec!["a", "", "b"], search_case_sensitive("", "a\n\nb"));
}

#[test]
fn a_line_matches_only_once_for_repeated_occurrences() {
    let contents = "tick tock tick\nquiet";
    assert_eq!(vec!["tick tock tick"], search_case_sensitive("tick", contents));
}

#[test]
fn dispatch_follows_the_case_sensitivity_flag() {
    let contents = "Rust:\nTrust me.";
    assert_eq!(vec!["Trust me."], search("rust", contents, true));
    assert_eq!(vec!["Rust:", "Trust me."], search("rust", contents, false));
}
