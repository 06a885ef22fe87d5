//! The three-tier matcher.
use vstd::prelude::*;
use crate::fuzzy::{fuzzy_accepts, fuzzy_tier, FuzzyMatcher, DEFAULT_FUZZY_THRESHOLD};
use crate::re_based::{
    accepted, anywhere_pattern, consecutive_pattern, flagged, prepare_regex, re_match_anywhere,
    re_match_consecutive, regex_is_match, Pattern,
};
use crate::select::{lemma_picked_is_filter, pick, picked};
use crate::text::views;

verus! {

/// `char::is_uppercase`: whether a character has the Unicode property
/// `Uppercase`.
pub uninterp spec fn char_is_uppercase(c: char) -> bool;

/// `char::is_uppercase` looks at the character alone.
pub assume_specification[ char::is_uppercase ](c: char) -> (r: bool)
    ensures
        r == char_is_uppercase(c),
;

/// Why no matcher could be built.
#[derive(Debug, PartialEq, Eq, Clone, Copy)]
pub enum MatcherError {
    /// A pattern made from the needles was refused when it was compiled.
    PatternRefused,
}

/// Ranks paths against a list of needles, in three tiers.
pub struct Matcher<'a> {
    fuzzy_matcher: FuzzyMatcher<'a>,
    re_anywhere: Pattern,
    re_consecutive: Pattern,
}

/// Whether no needle holds an upper-case letter, so that matching is to
/// ignore case.
pub open spec fn all_lowercase(needles: Seq<Seq<char>>) -> bool {
    forall|i: int, j: int|
        0 <= i < needles.len() && 0 <= j < needles[i].len() ==> !char_is_uppercase(
            #[trigger] needles[i][j],
        )
}

/// Whether a needle holds no upper-case letter.
fn is_lowercase(needle: &str) -> (r: bool)
    ensures
        r == forall|j: int| 0 <= j < needle@.len() ==> !char_is_uppercase(#[trigger] needle@[j]),
{
    let ghost mut done: Seq<char> = Seq::empty();
    for c in it: needle.chars()
        invariant
            done == it.seq().take(it.index() as int),
            forall|j: int| 0 <= j < done.len() ==> !char_is_uppercase(#[trigger] done[j]),
            it.seq() == needle@,
    {
        if c.is_uppercase() {
            return false;
        }
        proof {
            done = done.push(c);
        }
    }
    assert(done =~= needle@);
    true
}

/// Returns whether matches should ignore case: they should unless a needle
/// holds an upper-case letter.
pub fn detect_smartcase(needles: &[&str]) -> (r: bool)
    ensures
        r == all_lowercase(views(needles@)),
{
    let ghost model = views(needles@);
    let mut i: usize = 0;
    while i < needles.len()
        invariant
            i <= needles.len(),
            model == views(needles@),
            forall|k: int, j: int|
                0 <= k < i && 0 <= j < model[k].len() ==> !char_is_uppercase(
                    #[trigger] model[k][j],
                ),
        decreases needles.len() - i,
    {
        if !is_lowercase(needles[i]) {
            assert(model[i as int] == needles[i as int]@);
            return false;
        }
        i += 1;
    }
    true
}

/// For each path, whether `re` matches it.
fn regex_hits(re: &Pattern, paths: &[&str]) -> (flags: Vec<bool>)
    ensures
        flags.len() == paths.len(),
        forall|i: int| 0 <= i < paths.len() ==> flags[i] == regex_is_match(re@, #[trigger] paths[i]@),
{
    let mut flags: Vec<bool> = Vec::new();
    let mut i: usize = 0;
    while i < paths.len()
        invariant
            i <= paths.len(),
            flags.len() == i,
            forall|k: int| 0 <= k < i ==> flags[k] == regex_is_match(re@, #[trigger] paths[k]@),
        decreases paths.len() - i,
    {
        flags.push(re.is_match(paths[i]));
        i += 1;
    }
    flags
}

/// What a pattern keeps of `haystack`, in its order: the paths in which the
/// pattern matches somewhere.
pub open spec fn regex_tier(pattern: Seq<char>, haystack: Seq<Seq<char>>) -> Seq<Seq<char>> {
    haystack.filter(|p: Seq<char>| regex_is_match(pattern, p))
}

/// The ranked matches of `haystack` under the pattern `consecutive`, the
/// fuzzy tier for `needle` at `threshold`, and the pattern `anywhere`: what
/// the three tiers keep, one tier after another. The order of the tiers is
/// the rank, and nothing is removed where a path comes in more than one.
pub open spec fn ranked_with(
    consecutive: Seq<char>,
    needle: Seq<char>,
    threshold: u64,
    anywhere: Seq<char>,
    haystack: Seq<Seq<char>>,
) -> Seq<Seq<char>> {
    regex_tier(consecutive, haystack) + fuzzy_tier(needle, threshold, haystack) + regex_tier(
        anywhere,
        haystack,
    )
}

/// The ranked matches of `haystack` for `needles`, the most specific last.
pub open spec fn ranked_for(
    needles: Seq<Seq<char>>,
    ignore_case: bool,
    haystack: Seq<Seq<char>>,
) -> Seq<Seq<char>> {
    ranked_with(
        flagged(consecutive_pattern(needles), ignore_case),
        needles.last(),
        DEFAULT_FUZZY_THRESHOLD,
        flagged(anywhere_pattern(needles), ignore_case),
        haystack,
    )
}

/// Whether a matcher can be built for `needles`: the `regex` crate accepts
/// both of their patterns, with the flags for `ignore_case`.
pub open spec fn patterns_accepted(needles: Seq<Seq<char>>, ignore_case: bool) -> bool {
    &&& accepted(flagged(anywhere_pattern(needles), ignore_case))
    &&& accepted(flagged(consecutive_pattern(needles), ignore_case))
}

/// The ranking that three lists of flags give: the paths that the first
/// marks, then those that the second marks, then those that the third marks.
/// Each tier keeps the order of the paths, and a path that several tiers mark
/// comes once for each of them.
pub open spec fn ranking(
    haystack: Seq<Seq<char>>,
    consecutive: Seq<bool>,
    fuzzy: Seq<bool>,
    anywhere: Seq<bool>,
) -> Seq<Seq<char>> {
    picked(haystack, consecutive) + picked(haystack, fuzzy) + picked(haystack, anywhere)
}

/// Ranks `haystack` by what each tier found: `consecutive[i]`, `fuzzy[i]` and
/// `anywhere[i]` say whether that tier matched `haystack[i]`.
pub fn rank<'b>(
    haystack: &'b [&'b str],
    consecutive: &[bool],
    fuzzy: &[bool],
    anywhere: &[bool],
) -> (r: Vec<&'b str>)
    ensures
        views(r@) == ranking(views(haystack@), consecutive@, fuzzy@, anywhere@),
{
    let mut r = pick(haystack, consecutive);
    let mut second = pick(haystack, fuzzy);
    let mut third = pick(haystack, anywhere);
    r.append(&mut second);
    r.append(&mut third);
    r
}

impl<'a> Matcher<'a> {
    /// The pattern of the consecutive tier.
    pub closed spec fn consecutive_source(&self) -> Seq<char> {
        self.re_consecutive@
    }

    /// The pattern of the anywhere tier.
    pub closed spec fn anywhere_source(&self) -> Seq<char> {
        self.re_anywhere@
    }

    /// The matcher of the fuzzy tier.
    pub closed spec fn fuzzy(&self) -> FuzzyMatcher<'a> {
        self.fuzzy_matcher
    }

    /// Whether this matcher is the one for `needles`: its patterns are those
    /// of the needles, with the flags for `ignore_case`, and its fuzzy tier
    /// compares with the last needle at the default threshold.
    pub open spec fn built_for(&self, needles: Seq<Seq<char>>, ignore_case: bool) -> bool {
        &&& needles.len() > 0
        &&& self.fuzzy().needle() == needles.last()
        &&& self.fuzzy().threshold() == DEFAULT_FUZZY_THRESHOLD
        &&& self.anywhere_source() == flagged(anywhere_pattern(needles), ignore_case)
        &&& self.consecutive_source() == flagged(consecutive_pattern(needles), ignore_case)
    }

    /// The ranked matches of `haystack` under this matcher.
    pub open spec fn ranked(&self, haystack: Seq<Seq<char>>) -> Seq<Seq<char>> {
        ranked_with(
            self.consecutive_source(),
            self.fuzzy().needle(),
            self.fuzzy().threshold(),
            self.anywhere_source(),
            haystack,
        )
    }

    /// The text of the pattern of the consecutive tier.
    pub fn consecutive_regex(&self) -> (s: &str)
        ensures
            s@ == self.consecutive_source(),
    {
        self.re_consecutive.as_str()
    }

    /// The text of the pattern of the anywhere tier.
    pub fn anywhere_regex(&self) -> (s: &str)
        ensures
            s@ == self.anywhere_source(),
    {
        self.re_anywhere.as_str()
    }

    /// A matcher for `needles` that ignores case unless a needle holds an
    /// upper-case letter. There is one exactly where both patterns of the
    /// needles are accepted.
    pub fn new_smartcase(needles: Vec<&'a str>) -> (r: Result<Matcher<'a>, MatcherError>)
        requires
            needles.len() > 0,
        ensures
            r is Ok <==> patterns_accepted(views(needles@), all_lowercase(views(needles@))),
            r matches Ok(m) ==> m.built_for(views(needles@), all_lowercase(views(needles@))),
            r matches Err(e) ==> e == MatcherError::PatternRefused,
    {
        let ignore_case = detect_smartcase(needles.as_slice());
        Matcher::new(needles, ignore_case)
    }

    /// A matcher for `needles`, the most specific last.
    ///
    /// The two patterns of the needles are compiled here. There is a matcher
    /// exactly where both are accepted; where one is refused, that is the
    /// error.
    pub fn new(needles: Vec<&'a str>, ignore_case: bool) -> (r: Result<Matcher<'a>, MatcherError>)
        requires
            needles.len() > 0,
        ensures
            r is Ok <==> patterns_accepted(views(needles@), ignore_case),
            r matches Ok(m) ==> m.built_for(views(needles@), ignore_case),
            r matches Err(e) ==> e == MatcherError::PatternRefused,
    {
        let fuzzy_matcher = FuzzyMatcher::defaults(needles[needles.len() - 1]);
        let anywhere = re_match_anywhere(needles.as_slice());
        let consecutive = re_match_consecutive(needles.as_slice());
        let re_anywhere = prepare_regex(anywhere.as_str(), ignore_case);
        let re_consecutive = prepare_regex(consecutive.as_str(), ignore_case);
        Matcher::assemble(fuzzy_matcher, re_anywhere, re_consecutive)
    }

    /// The matcher made of a fuzzy tier and two compiled patterns, where both
    /// were accepted.
    pub fn assemble(
        fuzzy_matcher: FuzzyMatcher<'a>,
        re_anywhere: Result<Pattern, regex::Error>,
        re_consecutive: Result<Pattern, regex::Error>,
    ) -> (r: Result<Matcher<'a>, MatcherError>)
        ensures
            r is Ok <==> re_anywhere is Ok && re_consecutive is Ok,
            r matches Ok(m) ==> {
                &&& m.fuzzy() == fuzzy_matcher
                &&& re_anywhere matches Ok(re) && m.anywhere_source() == re@
                &&& re_consecutive matches Ok(re) && m.consecutive_source() == re@
            },
            r matches Err(e) ==> e == MatcherError::PatternRefused,
    {
        match re_anywhere {
            Ok(re_anywhere) => match re_consecutive {
                Ok(re_consecutive) => Ok(Matcher { fuzzy_matcher, re_anywhere, re_consecutive }),
                Err(_) => Err(MatcherError::PatternRefused),
            },
            Err(_) => Err(MatcherError::PatternRefused),
        }
    }

    /// The paths that the consecutive tier keeps, in their order.
    pub fn filter_consecutive<'b>(&self, haystack: &'b [&'b str]) -> (r: Vec<&'b str>)
        ensures
            views(r@) == regex_tier(self.consecutive_source(), views(haystack@)),
    {
        let flags = regex_hits(&self.re_consecutive, haystack);
        proof {
            lemma_picked_is_filter(
                views(haystack@),
                flags@,
                |p: Seq<char>| regex_is_match(self.consecutive_source(), p),
            );
        }
        pick(haystack, flags.as_slice())
    }

    /// The paths that the anywhere tier keeps, in their order.
    pub fn filter_anywhere<'b>(&self, haystack: &'b [&'b str]) -> (r: Vec<&'b str>)
        ensures
            views(r@) == regex_tier(self.anywhere_source(), views(haystack@)),
    {
        let flags = regex_hits(&self.re_anywhere, haystack);
        proof {
            lemma_picked_is_filter(
                views(haystack@),
                flags@,
                |p: Seq<char>| regex_is_match(self.anywhere_source(), p),
            );
        }
        pick(haystack, flags.as_slice())
    }

    /// The ranked matches of `haystack`: what the consecutive tier keeps,
    /// then what the fuzzy tier keeps, then what the anywhere tier keeps.
    pub fn execute<'b>(&self, haystack: &'b [&'b str]) -> (r: Vec<&'b str>)
        ensures
            views(r@) == self.ranked(views(haystack@)),
    {
        let consecutive = regex_hits(&self.re_consecutive, haystack);
        let fuzzy = self.fuzzy_matcher.hits(haystack);
        let anywhere = regex_hits(&self.re_anywhere, haystack);
        proof {
            let model = views(haystack@);
            lemma_picked_is_filter(
                model,
                consecutive@,
                |p: Seq<char>| regex_is_match(self.consecutive_source(), p),
            );
            lemma_picked_is_filter(
                model,
                fuzzy@,
                |p: Seq<char>| fuzzy_accepts(self.fuzzy().needle(), self.fuzzy().threshold(), p),
            );
            lemma_picked_is_filter(
                model,
                anywhere@,
                |p: Seq<char>| regex_is_match(self.anywhere_source(), p),
            );
        }
        rank(haystack, consecutive.as_slice(), fuzzy.as_slice(), anywhere.as_slice())
    }
}

} // verus!
