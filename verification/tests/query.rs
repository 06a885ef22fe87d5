use autojump::entry::Entry;
use autojump::matcher::{Matcher, MatcherError};
use autojump::query::{
    candidates, candidates_from, complete, do_query, prepare_query, query, render_menu, select,
    select_found, Query, QueryConfig, COMPLETE_COUNT,
};

fn history() -> Vec<Entry> {
    vec![
        Entry::new("/foo/bar/baz", 10.0f64.to_bits()),
        Entry::new("/moo/foo/baz", 30.0f64.to_bits()),
        Entry::new("/baz/foo/bar", 20.0f64.to_bits()),
        Entry::new("/moo/baz/foo", 5.0f64.to_bits()),
        Entry::new("/foo/baz", 1.0f64.to_bits()),
    ]
}

fn strings(items: &[&str]) -> Vec<String> {
    items.iter().map(|s| s.to_string()).collect()
}

fn plan<'a>(q: Query<'a>) -> QueryConfig<'a> {
    match q {
        Query::Execute(config) => config,
        Query::EarlyResult(path) => panic!("early result {}", path),
    }
}

#[test]
fn plan_of_plain_needles() {
    let needles = ["foo/", "bar"];
    let config = plan(prepare_query(&needles, true, 1, true));
    assert_eq!(config.needles, ["foo", "bar"]);
    assert!(config.check_existence);
    assert_eq!(config.index, 0);
    assert_eq!(config.count, 1);
    assert!(config.use_fallback);
}

#[test]
fn plan_of_no_needles_is_one_empty_needle() {
    let needles: [&str; 0] = [];
    let config = plan(prepare_query(&needles, false, 9, false));
    assert_eq!(config.needles, [""]);
    assert!(!config.check_existence);
    assert_eq!(config.index, 0);
    assert_eq!(config.count, 9);
    assert!(!config.use_fallback);
}

#[test]
fn plan_of_a_token_with_a_path_is_that_path() {
    let needles = ["fo__2__/home/u/foo", "ignored"];
    match prepare_query(&needles, true, 1, true) {
        Query::EarlyResult(path) => assert_eq!(path, "/home/u/foo"),
        Query::Execute(_) => panic!("no early result"),
    }
}

#[test]
fn plan_of_a_token_with_an_explicit_index() {
    let needles = ["fo__3", "other"];
    let config = plan(prepare_query(&needles, false, 9, false));
    assert_eq!(config.needles, ["fo"]);
    assert_eq!(config.index, 2);
    assert_eq!(config.count, 1);
}

#[test]
fn plan_of_a_token_with_an_implicit_index() {
    let needles = ["fo__", "other"];
    let config = plan(prepare_query(&needles, false, 9, false));
    assert_eq!(config.needles, ["fo"]);
    assert_eq!(config.index, 0);
    assert_eq!(config.count, 9);
}

#[test]
fn plan_of_the_index_zero_reaches_no_candidate() {
    let needles = ["fo__0"];
    let config = plan(prepare_query(&needles, true, 1, true));
    assert_eq!(config.needles, ["fo"]);
    assert_eq!(config.index, usize::MAX);
    assert_eq!(config.count, 1);
    let answer = query(history(), &[true; 5], &needles, None).unwrap();
    assert_eq!(answer, ".");
}

#[test]
fn plan_of_a_token_with_a_bad_index_uses_all_needles() {
    let needles = ["fo__x", "other/"];
    let config = plan(prepare_query(&needles, false, 9, false));
    assert_eq!(config.needles, ["fo__x", "other"]);
    assert_eq!(config.index, 0);
    assert_eq!(config.count, 9);
}

#[test]
fn candidates_are_ranked_by_tier_then_weight() {
    let found = candidates(history(), &["foo", "baz"], None).unwrap();
    assert_eq!(
        found,
        [
            // consecutive
            "/moo/foo/baz",
            "/foo/baz",
            // fuzzy
            "/moo/foo/baz",
            "/baz/foo/bar",
            "/foo/bar/baz",
            "/foo/baz",
            // anywhere
            "/moo/foo/baz",
            "/foo/bar/baz",
            "/foo/baz",
        ]
    );
}

#[test]
fn candidates_leave_out_the_current_directory() {
    let found = candidates(history(), &["foo", "baz"], Some("/moo/foo/baz/")).unwrap();
    assert_eq!(
        found,
        [
            "/foo/baz",
            "/baz/foo/bar",
            "/foo/bar/baz",
            "/foo/baz",
            "/foo/bar/baz",
            "/foo/baz",
        ]
    );
}

#[test]
fn candidates_ignore_case_unless_a_needle_has_upper_case() {
    let entries = vec![
        Entry::new("/x/Foo", 1.0f64.to_bits()),
        Entry::new("/x/foo", 2.0f64.to_bits()),
    ];
    let found = candidates(entries.clone(), &["foo"], None).unwrap();
    assert_eq!(found[0], "/x/foo");
    assert_eq!(found[1], "/x/Foo");
    let found = candidates(entries, &["Foo"], None).unwrap();
    assert_eq!(found[0], "/x/Foo");
}

#[test]
fn select_skips_takes_and_falls_back() {
    let all = strings(&["/a", "/b", "/c"]);
    assert_eq!(select(&all, 0, 1, true), ["/a"]);
    assert_eq!(select(&all, 1, 1, true), ["/b"]);
    assert_eq!(select(&all, 1, 9, false), ["/b", "/c"]);
    assert_eq!(select(&all, 1, 9, true), ["/b", "/c", "."]);
    assert_eq!(select(&all, 3, 1, true), ["."]);
    assert_eq!(select(&all, 7, 1, true), ["."]);
    assert_eq!(select(&all, usize::MAX, usize::MAX, true), ["."]);
    assert!(select(&all, 3, 1, false).is_empty());
    assert_eq!(select(&all, 0, 3, true), ["/a", "/b", "/c"]);
    assert_eq!(select(&all, 0, 0, true), ["."]);
    assert!(select(&all, 0, 0, false).is_empty());
    assert_eq!(select(&vec![], 0, 1, true), ["."]);
}

#[test]
fn query_returns_the_best_match() {
    let answer = query(history(), &[true; 5], &["foo", "baz"], None).unwrap();
    assert_eq!(answer, "/moo/foo/baz");
}

#[test]
fn query_passes_over_what_is_gone() {
    let answer = query(
        history(),
        &[true, false, true, true, true],
        &["foo", "baz"],
        None,
    )
    .unwrap();
    assert_eq!(answer, "/foo/baz");
    let answer = query(history(), &[false; 5], &["foo", "baz"], None).unwrap();
    assert_eq!(answer, ".");
}

#[test]
fn query_whose_only_match_is_the_current_directory_falls_back() {
    let entries = vec![
        Entry::new("/srv/project", 10.0f64.to_bits()),
        Entry::new("/var/log", 20.0f64.to_bits()),
    ];
    let answer = query(entries, &[true, true], &["project"], Some("/srv/project")).unwrap();
    assert_eq!(answer, ".");
}

#[test]
fn query_without_a_match_falls_back() {
    let answer = query(history(), &[true; 5], &["nothing-like-this"], None).unwrap();
    assert_eq!(answer, ".");
    let answer = query(vec![], &[], &[], None).unwrap();
    assert_eq!(answer, ".");
}

#[test]
fn query_trusts_a_completion_that_comes_back() {
    let answer = query(history(), &[false; 5], &["fo__2__/not/in/history"], None).unwrap();
    assert_eq!(answer, "/not/in/history");
}

#[test]
fn query_by_index_picks_that_candidate() {
    let answer = query(history(), &[true; 5], &["baz__2"], None).unwrap();
    // candidates for "baz": consecutive tier by weight
    assert_eq!(answer, "/foo/bar/baz");
    let answer = query(history(), &[true; 5], &["baz__1"], None).unwrap();
    assert_eq!(answer, "/moo/foo/baz");
    let answer = query(history(), &[true; 5], &["baz__"], None).unwrap();
    assert_eq!(answer, "/moo/foo/baz");
}

#[test]
fn do_query_checks_existence_only_when_asked() {
    let config = QueryConfig {
        needles: vec!["baz"],
        check_existence: false,
        index: 0,
        count: 2,
        use_fallback: false,
    };
    let found = do_query(history(), &[false; 5], &config, None).unwrap();
    assert_eq!(found, ["/moo/foo/baz", "/foo/bar/baz"]);
    let config = QueryConfig {
        needles: vec!["baz"],
        check_existence: true,
        index: 0,
        count: 2,
        use_fallback: false,
    };
    let found = do_query(history(), &[false, false, true, true, true], &config, None).unwrap();
    assert_eq!(found, ["/foo/baz", "/baz/foo/bar"]);
}

#[test]
fn complete_offers_a_menu() {
    assert_eq!(COMPLETE_COUNT, 9);
    let lines = complete(history(), &["moo"], None).unwrap();
    assert_eq!(
        lines,
        [
            // fuzzy: `foo` is close to `moo`
            "moo__1__/moo/baz/foo",
            // anywhere, by weight
            "moo__2__/moo/foo/baz",
            "moo__3__/moo/baz/foo",
        ]
    );
}

#[test]
fn complete_offers_nine_candidates_at_most() {
    let mut entries: Vec<Entry> = vec![];
    for i in 0..12 {
        entries.push(Entry::new(&format!("/data/set{}", i), ((100 - i) as f64).to_bits()));
    }
    let lines = complete(entries, &["set"], None).unwrap();
    assert_eq!(lines.len(), 9);
    assert_eq!(lines[0], "set__1__/data/set0");
    assert_eq!(lines[8], "set__9__/data/set8");
}

#[test]
fn complete_prints_a_single_candidate_bare() {
    let lines = complete(history(), &["moo__2"], None).unwrap();
    assert_eq!(lines, ["/moo/foo/baz"]);
    let lines = complete(history(), &["moo__2__/picked"], None).unwrap();
    assert_eq!(lines, ["/picked"]);
}

#[test]
fn complete_looks_at_the_first_token_only() {
    let one = complete(history(), &["moo", "baz"], None).unwrap();
    let other = complete(history(), &["moo"], None).unwrap();
    assert_eq!(one, other);
    let none = complete(history(), &["nothing-like-this"], None).unwrap();
    assert!(none.is_empty());
    let empty = complete(history(), &[], None).unwrap();
    assert_eq!(empty.len(), 9);
    assert!(empty[0].starts_with("__1__"));
}

#[test]
fn render_menu_numbers_from_one() {
    assert_eq!(
        render_menu("x", &strings(&["/a", "/b"])),
        ["x__1__/a", "x__2__/b"]
    );
    assert_eq!(render_menu("x", &strings(&["/a"])), ["/a"]);
    assert!(render_menu("x", &vec![]).is_empty());
}

#[test]
fn it_makes_no_difference_when_what_is_gone_is_passed_over() {
    let gone = ["/moo/foo/baz", "/foo/bar/baz"];
    let present: Vec<bool> = history()
        .iter()
        .map(|e| !gone.contains(&e.path.as_str()))
        .collect();
    for needles in [vec!["foo", "baz"], vec!["baz"], vec!["o"], vec![""]] {
        let ranked_first = candidates(history(), &needles, Some("/foo/baz")).unwrap();
        let behind: Vec<String> = ranked_first
            .into_iter()
            .filter(|p| !gone.contains(&p.as_str()))
            .collect();
        let config = QueryConfig {
            needles: needles.clone(),
            check_existence: true,
            index: 0,
            count: 100,
            use_fallback: false,
        };
        let before = do_query(history(), &present, &config, Some("/foo/baz")).unwrap();
        assert_eq!(before, behind);
    }
}

#[test]
fn candidates_from_a_matcher_or_from_a_failure() {
    let paths = ["/moo/foo/baz", "/baz/foo/bar", "/foo/baz"];
    let matcher = Matcher::new(vec!["foo", "baz"], false);
    assert!(matcher.is_ok());
    let found = candidates_from(matcher, &paths, Some("/foo/baz/")).unwrap();
    assert_eq!(
        found,
        [
            // consecutive
            "/moo/foo/baz",
            // fuzzy
            "/moo/foo/baz",
            "/baz/foo/bar",
            // anywhere
            "/moo/foo/baz",
        ]
    );
    let matcher = Matcher::new(vec!["foo", "baz"], false);
    let found = candidates_from(matcher, &paths, None).unwrap();
    assert_eq!(found.len(), 7);
    let failed = candidates_from(Err(MatcherError::PatternRefused), &paths, None);
    assert_eq!(failed, Err(MatcherError::PatternRefused));
}

#[test]
fn select_found_hands_a_failure_on() {
    let found = Ok(strings(&["/a", "/b", "/c"]));
    assert_eq!(select_found(found, 1, 1, true), Ok(strings(&["/b"])));
    let found = Ok(strings(&["/a"]));
    assert_eq!(select_found(found, 1, 2, true), Ok(strings(&["."])));
    let found = Ok(strings(&[]));
    assert_eq!(select_found(found, 0, 9, false), Ok(strings(&[])));
    assert_eq!(
        select_found(Err(MatcherError::PatternRefused), 0, 1, true),
        Err(MatcherError::PatternRefused)
    );
}
