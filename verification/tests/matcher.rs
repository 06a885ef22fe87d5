use autojump::fuzzy::{is_at_least, FuzzyMatcher, DEFAULT_FUZZY_THRESHOLD};
use autojump::matcher::{detect_smartcase, rank, Matcher, MatcherError};
use autojump::re_based::{prepare_regex, re_match_anywhere, re_match_consecutive};
use autojump::path::file_name;
use autojump::select::pick;

#[test]
fn test_smartcase() {
    let none: Vec<&str> = vec![];
    assert_eq!(detect_smartcase(&none), true);
    assert_eq!(detect_smartcase(&vec![""]), true);
    assert_eq!(detect_smartcase(&vec!["foo"]), true);
    assert_eq!(detect_smartcase(&vec!["foo", "bar"]), true);
    assert_eq!(detect_smartcase(&vec!["测试", "bar"]), true);
    assert_eq!(detect_smartcase(&vec!["foo", "bar", "测试", "baZ"]), false);
}

#[test]
fn test_fuzzy() {
    let matcher = FuzzyMatcher::defaults("foo");
    let haystack: Vec<&str> = vec![];
    let expected: Vec<&str> = vec![];
    assert_eq!(matcher.filter_path(&haystack), expected);

    let matcher = FuzzyMatcher::defaults("foo");
    let haystack: Vec<&str> = vec![
        "/fow/bar",
        "/bar/foo",
        "/bar/fooow",
        "/fuzzy",
        "/moo/foo/baz",
        "/foo/ooofoo",
    ];
    let expected: Vec<&str> = vec!["/bar/foo", "/bar/fooow", "/foo/ooofoo"];
    let actual = matcher.filter_path(&haystack);
    assert_eq!(expected.len(), actual.len());
    for (i, j) in expected.into_iter().zip(actual.into_iter()) {
        assert_eq!(i, j);
    }
}

#[test]
fn test_matcher() {
    let needles = vec!["foo", "baz"];
    let matcher = Matcher::new(needles, false).unwrap();

    let haystack = vec![
        "/foo/bar/baz",
        "/moo/foo/baz",
        "/baz/foo/bar",
        "/moo/baz/foo",
        "/foo/baz",
    ];

    let actual = matcher.execute(&haystack);
    let expected = vec![
        // consecutive matcher
        "/moo/foo/baz",
        "/foo/baz",
        // fuzzy matcher
        "/foo/bar/baz",
        "/moo/foo/baz",
        "/baz/foo/bar",
        "/foo/baz",
        // anywhere matcher
        "/foo/bar/baz",
        "/moo/foo/baz",
        "/foo/baz",
    ];
    assert_eq!(actual.len(), expected.len());
    for (i, j) in expected.into_iter().zip(actual.into_iter()) {
        assert_eq!(i, j);
    }
}

#[test]
fn tiers_one_by_one() {
    let matcher = Matcher::new(vec!["foo", "baz"], false).unwrap();
    let haystack = [
        "/foo/bar/baz",
        "/moo/foo/baz",
        "/baz/foo/bar",
        "/moo/baz/foo",
        "/foo/baz",
    ];
    assert_eq!(
        matcher.filter_consecutive(&haystack),
        ["/moo/foo/baz", "/foo/baz"]
    );
    assert_eq!(
        matcher.filter_anywhere(&haystack),
        ["/foo/bar/baz", "/moo/foo/baz", "/foo/baz"]
    );
}

#[test]
fn smartcase_matcher_follows_the_needles() {
    let haystack = ["/Foo/Bar", "/foo/bar"];
    let lower = Matcher::new_smartcase(vec!["bar"]).unwrap();
    assert_eq!(lower.filter_anywhere(&haystack), ["/Foo/Bar", "/foo/bar"]);
    let upper = Matcher::new_smartcase(vec!["Bar"]).unwrap();
    assert_eq!(upper.filter_anywhere(&haystack), ["/Foo/Bar"]);
    assert_eq!(upper.filter_consecutive(&haystack), ["/Foo/Bar"]);
}

#[test]
fn needles_are_taken_literally() {
    let haystack = ["/a.b", "/axb", "/a/b"];
    let matcher = Matcher::new(vec!["a.b"], false).unwrap();
    assert_eq!(matcher.filter_anywhere(&haystack), ["/a.b"]);
    let slash = Matcher::new(vec!["a/b"], false).unwrap();
    assert_eq!(slash.filter_anywhere(&haystack), ["/a/b"]);
}

#[test]
fn threshold_is_six_tenths() {
    assert_eq!(DEFAULT_FUZZY_THRESHOLD, 0.6f64.to_bits());
}

#[test]
fn fuzzy_threshold_decides() {
    let haystack = ["/x/foo", "/x/fob", "/x/bar"];
    let exact = FuzzyMatcher::new("foo", 1.0f64.to_bits());
    assert_eq!(exact.filter_path(&haystack), ["/x/foo"]);
    let all = FuzzyMatcher::new("foo", 0.0f64.to_bits());
    assert_eq!(all.filter_path(&haystack), ["/x/foo", "/x/fob", "/x/bar"]);
    let default = FuzzyMatcher::defaults("foo");
    assert_eq!(default.filter_path(&haystack), ["/x/foo", "/x/fob"]);
    assert_eq!(default.hits(&haystack), [true, true, false]);
}

#[test]
fn fuzzy_skips_paths_without_a_name() {
    let matcher = FuzzyMatcher::new("", 0.0f64.to_bits());
    assert_eq!(matcher.filter_path(&["/", "", "/a/..", "/a"]), ["/a"]);
}

#[test]
fn rank_concatenates_the_tiers() {
    let haystack = ["a", "b", "c"];
    let ranked = rank(
        &haystack,
        &[false, true, false],
        &[true, true, false],
        &[true, false, true],
    );
    assert_eq!(ranked, ["b", "a", "b", "a", "c"]);
    let nothing = rank(&haystack, &[], &[false, false, false], &[false]);
    assert!(nothing.is_empty());
}

#[test]
fn pick_ignores_missing_and_surplus_flags() {
    assert_eq!(pick(&["a", "b", "c"], &[true]), ["a"]);
    assert_eq!(pick(&["a"], &[true, true, true]), ["a"]);
    assert_eq!(pick(&["a", "b"], &[false, true]), ["b"]);
}

#[test]
fn file_name_is_the_last_component() {
    assert_eq!(file_name("/usr/bin/"), Some("bin"));
    assert_eq!(file_name("tmp/foo.txt"), Some("foo.txt"));
    assert_eq!(file_name("foo.txt/."), Some("foo.txt"));
    assert_eq!(file_name("foo.txt/.//"), Some("foo.txt"));
    assert_eq!(file_name("foo.txt/.."), None);
    assert_eq!(file_name("/"), None);
    assert_eq!(file_name(""), None);
    assert_eq!(file_name("."), None);
    assert_eq!(file_name("./."), None);
    assert_eq!(file_name(".."), None);
    assert_eq!(file_name("a/../"), None);
    assert_eq!(file_name("./a"), Some("a"));
    assert_eq!(file_name("a"), Some("a"));
    assert_eq!(file_name("/测试/目录"), Some("目录"));
    assert_eq!(file_name("..."), Some("..."));
    assert_eq!(file_name("a/.b"), Some(".b"));
}

#[test]
fn file_name_agrees_with_the_standard_library() {
    for p in [
        "/usr/bin/", "tmp/foo.txt", "foo.txt/.", "foo.txt/.//", "foo.txt/..", "/", "", ".", "./.",
        "..", "a/../", "./a", "a", "//a//b//", "/.", "/./", "a/./.", "../a", ".a", "a.", "/a/b/c",
    ] {
        let expected = std::path::Path::new(p).file_name().map(|n| n.to_str().unwrap());
        assert_eq!(file_name(p), expected, "{}", p);
    }
}

#[test]
fn tests_test_smartcase() {
    let cases: Vec<(Vec<&str>, bool)> = vec![
        (vec![], true),
        (vec![""], true),
        (vec!["foo"], true),
        (vec!["foo", "bar"], true),
        (vec!["测试", "bar"], true),
        (vec!["foo", "bar", "测试", "baZ"], false),
    ];
    for (needles, expected) in cases {
        assert_eq!(detect_smartcase(&needles), expected);
    }
}

#[test]
fn smartcase_knows_upper_case_beyond_ascii() {
    assert_eq!(detect_smartcase(&["été"]), true);
    assert_eq!(detect_smartcase(&["École"]), false);
    assert_eq!(detect_smartcase(&["Ω"]), false);
    assert_eq!(detect_smartcase(&["a1_/"]), true);
}

#[test]
fn matcher_compiles_the_patterns_of_its_needles() {
    let matcher = Matcher::new(vec!["foo", "baz"], false).unwrap();
    assert_eq!(matcher.consecutive_regex(), "(?u)foo[^/]*/[^/]*baz[^/]*$");
    assert_eq!(matcher.anywhere_regex(), "(?u).*foo.*baz.*");
    let matcher = Matcher::new(vec!["a.b"], true).unwrap();
    assert_eq!(matcher.consecutive_regex(), r"(?iu)a\x{2e}b[^/]*$");
    assert_eq!(matcher.anywhere_regex(), r"(?iu).*a\x{2e}b.*");
    let matcher = Matcher::new_smartcase(vec!["Foo"]).unwrap();
    assert_eq!(matcher.anywhere_regex(), "(?u).*Foo.*");
    let matcher = Matcher::new_smartcase(vec!["foo"]).unwrap();
    assert_eq!(matcher.anywhere_regex(), "(?iu).*foo.*");
}

#[test]
fn assemble_needs_both_patterns() {
    let good = || prepare_regex("a", false);
    let bad = || prepare_regex("(", false);
    assert!(Matcher::assemble(FuzzyMatcher::defaults("a"), good(), good()).is_ok());
    assert_eq!(
        Matcher::assemble(FuzzyMatcher::defaults("a"), bad(), good()).err(),
        Some(MatcherError::PatternRefused)
    );
    assert_eq!(
        Matcher::assemble(FuzzyMatcher::defaults("a"), good(), bad()).err(),
        Some(MatcherError::PatternRefused)
    );
    assert_eq!(
        Matcher::assemble(FuzzyMatcher::defaults("a"), bad(), bad()).err(),
        Some(MatcherError::PatternRefused)
    );
}

#[test]
fn tests_test_fuzzy() {
    let matcher = FuzzyMatcher::defaults("foo");
    let haystack: Vec<&str> = vec![];
    let expected: Vec<&str> = vec![];
    assert_eq!(matcher.filter_path(&haystack), expected);

    let haystack: Vec<&str> = vec![
        "/fow/bar",
        "/bar/foo",
        "/bar/fooow",
        "/fuzzy",
        "/moo/foo/baz",
        "/foo/ooofoo",
    ];
    let expected: Vec<&str> = vec!["/bar/foo", "/bar/fooow", "/foo/ooofoo"];
    assert_eq!(matcher.filter_path(&haystack), expected);
}

#[test]
fn tests_test_matcher() {
    let needles = vec!["foo", "baz"];
    let matcher = Matcher::new(needles, false).unwrap();

    let haystack = vec![
        "/foo/bar/baz",
        "/moo/foo/baz",
        "/baz/foo/bar",
        "/moo/baz/foo",
        "/foo/baz",
    ];

    assert_eq!(
        matcher.execute(&haystack),
        [
            // consecutive matcher
            "/moo/foo/baz",
            "/foo/baz",
            // fuzzy matcher
            "/foo/bar/baz",
            "/moo/foo/baz",
            "/baz/foo/bar",
            "/foo/baz",
            // anywhere matcher
            "/foo/bar/baz",
            "/moo/foo/baz",
            "/foo/baz",
        ]
    );
}

#[test]
fn bit_patterns_compare_as_the_doubles_do() {
    let values = [
        f64::NEG_INFINITY,
        -1e300,
        -1.0,
        -0.6,
        -1e-320,
        -0.0,
        0.0,
        1e-320,
        0.3,
        0.6,
        0.6000000000000001,
        1.0,
        2.5,
        f64::MAX,
        f64::INFINITY,
        f64::NAN,
        -f64::NAN,
        f64::from_bits(0x7FF0_0000_0000_0001),
        f64::from_bits(0xFFFF_FFFF_FFFF_FFFF),
    ];
    for a in values {
        for b in values {
            assert_eq!(is_at_least(a.to_bits(), b.to_bits()), a >= b, "{} {}", a, b);
        }
    }
}

#[test]
fn fuzzy_threshold_below_zero_keeps_every_name() {
    let haystack = ["/x/foo", "/x/bar", "/", "/a/.."];
    let negative = FuzzyMatcher::new("foo", (-0.5f64).to_bits());
    assert_eq!(negative.filter_path(&haystack), ["/x/foo", "/x/bar"]);
    let minus_zero = FuzzyMatcher::new("foo", (-0.0f64).to_bits());
    assert_eq!(minus_zero.filter_path(&haystack), ["/x/foo", "/x/bar"]);
    let no_number = FuzzyMatcher::new("foo", f64::NAN.to_bits());
    assert!(no_number.filter_path(&haystack).is_empty());
    let above_one = FuzzyMatcher::new("foo", 1.5f64.to_bits());
    assert!(above_one.filter_path(&haystack).is_empty());
}

#[test]
fn matcher_is_built_where_both_patterns_are_accepted() {
    for needles in [vec!["foo"], vec!["a.b", "c"], vec![""], vec!["(", "["], vec!["\\", "测试"]] {
        for ignore_case in [false, true] {
            let anywhere = prepare_regex(&re_match_anywhere(&needles), ignore_case);
            let consecutive = prepare_regex(&re_match_consecutive(&needles), ignore_case);
            let matcher = Matcher::new(needles.clone(), ignore_case);
            assert_eq!(matcher.is_ok(), anywhere.is_ok() && consecutive.is_ok());
            assert!(matcher.is_ok());
        }
    }
}
