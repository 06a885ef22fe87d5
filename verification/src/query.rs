//! From the tokens of a query to the paths that answer it.
use vstd::prelude::*;
use crate::entry::{by_weight, lemma_by_weight_filter, paths_of, sort_by_weight, Entry};
use crate::fuzzy::{fuzzy_accepts, DEFAULT_FUZZY_THRESHOLD};
use crate::input::{sanitize, sanitized};
use crate::matcher::{all_lowercase, patterns_accepted, ranked_for, Matcher, MatcherError};
use crate::re_based::{anywhere_pattern, consecutive_pattern, flagged, regex_is_match};
use crate::path::{path_eq, same_path};
use crate::purge::purge;
use crate::select::{lemma_filter_commutes, lemma_picked_is_filter, pick, picked};
use crate::tabentry::{decode, encode, get_tab_entry_info, marker, menu_entry, TabEntryInfo};
use crate::text::{as_strs, string_views, to_strings, views};

verus! {

/// How many candidates a completion menu offers.
pub const COMPLETE_COUNT: usize = 9;

/// A query that is to be run against the history.
pub struct QueryConfig<'a> {
    /// The needles, the most specific last; never empty.
    pub needles: Vec<&'a str>,
    /// Whether directories that are gone are to be passed over.
    pub check_existence: bool,
    /// How many candidates to pass over.
    pub index: usize,
    /// How many candidates to return.
    pub count: usize,
    /// Whether `.` is to stand in where candidates are wanting.
    pub use_fallback: bool,
}

/// What the tokens of a query ask for.
pub enum Query<'a> {
    /// The history is to be searched.
    Execute(QueryConfig<'a>),
    /// The shell handed back a completion that was offered before: the
    /// answer is the path that it carries.
    EarlyResult(&'a str),
}

/// A `QueryConfig` as plain values.
pub struct PlanModel {
    pub needles: Seq<Seq<char>>,
    pub check_existence: bool,
    pub index: usize,
    pub count: usize,
    pub use_fallback: bool,
}

/// A `Query` as plain values.
pub enum QueryModel {
    Execute(PlanModel),
    EarlyResult(Seq<char>),
}

impl<'a> View for QueryConfig<'a> {
    type V = PlanModel;

    open spec fn view(&self) -> PlanModel {
        PlanModel {
            needles: views(self.needles@),
            check_existence: self.check_existence,
            index: self.index,
            count: self.count,
            use_fallback: self.use_fallback,
        }
    }
}

impl<'a> QueryConfig<'a> {
    /// Whether the query can be run: it has a needle.
    pub open spec fn wf(&self) -> bool {
        self.needles.len() > 0
    }
}

impl<'a> View for Query<'a> {
    type V = QueryModel;

    open spec fn view(&self) -> QueryModel {
        match self {
            Query::Execute(config) => QueryModel::Execute(config@),
            Query::EarlyResult(path) => QueryModel::EarlyResult(path@),
        }
    }
}

/// The needles to work with: each token without the separators at its end,
/// or one empty needle where there is no token.
pub open spec fn sanitized_needles(needles: Seq<Seq<char>>) -> Seq<Seq<char>> {
    if needles.len() == 0 {
        seq![Seq::<char>::empty()]
    } else {
        Seq::new(needles.len(), |i: int| sanitized(needles[i]))
    }
}

/// How many candidates stand before the one with the 1-based index `index`.
/// No candidate has the index 0, and so none is reached for it.
pub open spec fn offset_of(index: nat) -> usize {
    if index == 0 {
        usize::MAX
    } else {
        (index - 1) as usize
    }
}

/// What the tokens `needles` ask for.
///
/// The first token decides. Where it carries a path, that path is the
/// answer. Where it carries an index, its needle is the only needle and the
/// index tells which candidate is meant; an index that was written out asks
/// for that one candidate, while the index that an empty field stands for
/// leaves the count as it is. Else all tokens are needles.
pub open spec fn plan_of(
    needles: Seq<Seq<char>>,
    check_existence: bool,
    count: usize,
    use_fallback: bool,
) -> QueryModel {
    let sane = sanitized_needles(needles);
    let tab = decode(sane[0], marker());
    match tab.path {
        Some(path) => QueryModel::EarlyResult(path),
        None => match tab.index {
            Some(index) => QueryModel::Execute(
                PlanModel {
                    needles: seq![tab.needle->0],
                    check_existence,
                    index: offset_of(index),
                    count: if tab.index_explicit {
                        1
                    } else {
                        count
                    },
                    use_fallback,
                },
            ),
            None => QueryModel::Execute(
                PlanModel { needles: sane, check_existence, index: 0, count, use_fallback },
            ),
        },
    }
}

/// Works out what the tokens of a query ask for.
pub fn prepare_query<'a>(
    needles: &'a [&'a str],
    check_existence: bool,
    count: usize,
    use_fallback: bool,
) -> (r: Query<'a>)
    ensures
        r@ == plan_of(views(needles@), check_existence, count, use_fallback),
        r matches Query::Execute(config) ==> config.wf(),
{
    let needles: Vec<&'a str> = if needles.len() == 0 {
        proof {
            reveal_strlit("");
        }
        let mut one: Vec<&'a str> = Vec::new();
        one.push("");
        assert(""@ =~= Seq::<char>::empty());
        assert(views(one@) =~= sanitized_needles(views(needles@)));
        one
    } else {
        let sane = sanitize(needles);
        assert(views(sane@) =~= sanitized_needles(views(needles@)));
        sane
    };
    let tab = get_tab_entry_info(needles[0]);
    if let Some(path) = tab.path {
        return Query::EarlyResult(path);
    }
    match (tab.index, tab.needle) {
        (Some(index), Some(needle)) => {
            let offset: usize = if index == 0 {
                usize::MAX
            } else {
                index - 1
            };
            let count: usize = if tab.index_explicit {
                1
            } else {
                count
            };
            let mut one: Vec<&'a str> = Vec::new();
            one.push(needle);
            assert(views(one@) =~= seq![needle@]);
            Query::Execute(
                QueryConfig { needles: one, check_existence, index: offset, count, use_fallback },
            )
        },
        _ => Query::Execute(
            QueryConfig { needles, check_existence, index: 0, count, use_fallback },
        ),
    }
}

/// `paths` without those that name the current directory.
pub open spec fn without_cwd(paths: Seq<Seq<char>>, cwd: Option<&str>) -> Seq<Seq<char>> {
    match cwd {
        Some(dir) => paths.filter(|p: Seq<char>| !path_eq(p, dir@)),
        None => paths,
    }
}

/// The candidates for `needles` among `entries`: the paths of the entries by
/// descending weight, ranked by the three tiers, without the current
/// directory. Case counts only where a needle holds an upper-case letter.
pub open spec fn candidates_of(
    entries: Seq<Entry>,
    needles: Seq<Seq<char>>,
    cwd: Option<&str>,
) -> Seq<Seq<char>> {
    without_cwd(ranked_for(needles, all_lowercase(needles), paths_of(by_weight(entries))), cwd)
}

/// The candidates from `index` on, `count` of them at most.
pub open spec fn page(candidates: Seq<Seq<char>>, index: usize, count: usize) -> Seq<Seq<char>> {
    let start = if index <= candidates.len() {
        index as int
    } else {
        candidates.len() as int
    };
    let end = if start + count <= candidates.len() {
        start + count
    } else {
        candidates.len() as int
    };
    candidates.subrange(start, end)
}

/// The path that stands in where candidates are wanting: the directory
/// that we are in.
pub open spec fn fallback_path() -> Seq<char> {
    seq!['.']
}

/// What is returned of `candidates`: those from `index` on, `count` at most,
/// and behind them the fallback, where it is asked for and there are no such
/// candidates or fewer than `count`.
pub open spec fn selection(
    candidates: Seq<Seq<char>>,
    index: usize,
    count: usize,
    use_fallback: bool,
) -> Seq<Seq<char>> {
    let page = page(candidates, index, count);
    if use_fallback && (page.len() == 0 || page.len() < count) {
        page.push(fallback_path())
    } else {
        page
    }
}

/// The entries that take part in a query: where directories that are gone
/// are to be passed over, those whose flag in `present` is set; else all.
///
/// Whether a directory is there does not depend on its rank, so passing over
/// what is gone before the ranking gives what passing over it behind the
/// ranking gives: see `lemma_existence_commutes`.
pub open spec fn live(
    entries: Seq<Entry>,
    present: Seq<bool>,
    check_existence: bool,
) -> Seq<Entry> {
    if check_existence {
        picked(entries, present)
    } else {
        entries
    }
}

/// The answer to the query `plan` from the history `entries`.
pub open spec fn outcome(
    entries: Seq<Entry>,
    present: Seq<bool>,
    plan: PlanModel,
    cwd: Option<&str>,
) -> Seq<Seq<char>> {
    selection(
        candidates_of(live(entries, present, plan.check_existence), plan.needles, cwd),
        plan.index,
        plan.count,
        plan.use_fallback,
    )
}

/// Where nothing is left of the candidates, a query with fallback returns
/// the fallback and nothing else, whatever index and count it asks for.
pub proof fn lemma_fallback_alone(index: usize, count: usize)
    ensures
        selection(Seq::<Seq<char>>::empty(), index, count, true) == seq![fallback_path()],
{
}

/// Where every ranked path is the current directory, nothing is left of
/// them once it is taken out, and a query with fallback returns the fallback
/// and nothing else.
pub proof fn lemma_only_cwd_matches(ranked: Seq<Seq<char>>, cwd: &str, index: usize, count: usize)
    requires
        forall|i: int| 0 <= i < ranked.len() ==> path_eq(#[trigger] ranked[i], cwd@),
    ensures
        without_cwd(ranked, Some(cwd)) == Seq::<Seq<char>>::empty(),
        selection(without_cwd(ranked, Some(cwd)), index, count, true) == seq![fallback_path()],
{
    let keep = |p: Seq<char>| !path_eq(p, cwd@);
    let left = ranked.filter(keep);
    if left.len() > 0 {
        ranked.lemma_filter_pred(keep, 0);
        ranked.lemma_filter_contains_rev(keep, left[0]);
    }
    lemma_fallback_alone(index, count);
}

/// A query with fallback whose every match is the current directory is
/// answered by the fallback and nothing else.
pub proof fn lemma_query_falls_back(
    entries: Seq<Entry>,
    present: Seq<bool>,
    plan: PlanModel,
    cwd: &str,
)
    requires
        plan.use_fallback,
        forall|i: int|
            0 <= i < ranked_for(
                plan.needles,
                all_lowercase(plan.needles),
                paths_of(by_weight(live(entries, present, plan.check_existence))),
            ).len() ==> path_eq(
                #[trigger] ranked_for(
                    plan.needles,
                    all_lowercase(plan.needles),
                    paths_of(by_weight(live(entries, present, plan.check_existence))),
                )[i],
                cwd@,
            ),
    ensures
        outcome(entries, present, plan, Some(cwd)) == seq![fallback_path()],
{
    lemma_only_cwd_matches(
        ranked_for(
            plan.needles,
            all_lowercase(plan.needles),
            paths_of(by_weight(live(entries, present, plan.check_existence))),
        ),
        cwd,
        plan.index,
        plan.count,
    );
}

/// The one path that answers a query for a single directory: the candidate
/// behind the first `index` candidates, or the fallback where there are no
/// more than `index`.
pub open spec fn answer_of(candidates: Seq<Seq<char>>, index: usize) -> Seq<char> {
    if index < candidates.len() {
        candidates[index as int]
    } else {
        fallback_path()
    }
}

/// With a fallback, a query for one path has one answer: the candidate at
/// its offset, or the fallback where there is none.
pub proof fn lemma_one_answer(candidates: Seq<Seq<char>>, index: usize)
    ensures
        selection(candidates, index, 1, true) == seq![answer_of(candidates, index)],
{
    assert(selection(candidates, index, 1, true) =~= seq![answer_of(candidates, index)]);
}

/// A query for one directory whose every match is the current directory is
/// answered by the fallback.
pub proof fn lemma_answer_falls_back(ranked: Seq<Seq<char>>, cwd: &str, index: usize)
    requires
        forall|i: int| 0 <= i < ranked.len() ==> path_eq(#[trigger] ranked[i], cwd@),
    ensures
        answer_of(without_cwd(ranked, Some(cwd)), index) == fallback_path(),
{
    lemma_only_cwd_matches(ranked, cwd, index, 1);
}

/// Whether the flags `present` say of each entry what `is_there` says of its
/// path.
pub open spec fn tells(
    entries: Seq<Entry>,
    present: Seq<bool>,
    is_there: spec_fn(Seq<char>) -> bool,
) -> bool {
    &&& present.len() == entries.len()
    &&& forall|i: int|
        0 <= i < entries.len() ==> present[i] == is_there(#[trigger] entries[i].path@)
}

/// The paths of the entries whose path meets `is_there` are the paths that
/// meet `is_there`.
proof fn lemma_paths_filter(entries: Seq<Entry>, is_there: spec_fn(Seq<char>) -> bool)
    ensures
        paths_of(entries.filter(|e: Entry| is_there(e.path@))) == paths_of(entries).filter(is_there),
    decreases entries.len(),
{
    let keep = |e: Entry| is_there(e.path@);
    if entries.len() == 0 {
        entries.lemma_filter_len(keep);
        paths_of(entries).lemma_filter_len(is_there);
    } else {
        let front = entries.drop_last();
        let last = entries.last();
        lemma_paths_filter(front, is_there);
        assert(entries =~= front.push(last));
        front.lemma_filter_push(last, keep);
        assert(paths_of(entries) =~= paths_of(front).push(last.path@));
        paths_of(front).lemma_filter_push(last.path@, is_there);
    }
}

/// Ranking the paths that meet `is_there` gives the ranked paths that meet
/// `is_there`.
proof fn lemma_ranked_filter(
    needles: Seq<Seq<char>>,
    ignore_case: bool,
    haystack: Seq<Seq<char>>,
    is_there: spec_fn(Seq<char>) -> bool,
)
    ensures
        ranked_for(needles, ignore_case, haystack.filter(is_there)) == ranked_for(
            needles,
            ignore_case,
            haystack,
        ).filter(is_there),
{
    let consecutive = |p: Seq<char>|
        regex_is_match(flagged(consecutive_pattern(needles), ignore_case), p);
    let fuzzy = |p: Seq<char>| fuzzy_accepts(needles.last(), DEFAULT_FUZZY_THRESHOLD, p);
    let anywhere = |p: Seq<char>| regex_is_match(flagged(anywhere_pattern(needles), ignore_case), p);
    lemma_filter_commutes(haystack, is_there, consecutive);
    lemma_filter_commutes(haystack, is_there, fuzzy);
    lemma_filter_commutes(haystack, is_there, anywhere);
    Seq::filter_distributes_over_add(haystack.filter(consecutive), haystack.filter(fuzzy), is_there);
    Seq::filter_distributes_over_add(
        haystack.filter(consecutive) + haystack.filter(fuzzy),
        haystack.filter(anywhere),
        is_there,
    );
}

/// It makes no difference whether the directories that are gone are passed
/// over before the entries are ranked or behind: the candidates among the
/// entries that are still there are the candidates among all entries that
/// are still there.
pub proof fn lemma_existence_commutes(
    entries: Seq<Entry>,
    present: Seq<bool>,
    is_there: spec_fn(Seq<char>) -> bool,
    needles: Seq<Seq<char>>,
    cwd: Option<&str>,
)
    requires
        tells(entries, present, is_there),
    ensures
        candidates_of(picked(entries, present), needles, cwd) == candidates_of(
            entries,
            needles,
            cwd,
        ).filter(is_there),
{
    let keep = |e: Entry| is_there(e.path@);
    lemma_picked_is_filter(entries, present, keep);
    lemma_by_weight_filter(entries, keep);
    lemma_paths_filter(by_weight(entries), is_there);
    let haystack = paths_of(by_weight(entries));
    lemma_ranked_filter(needles, all_lowercase(needles), haystack, is_there);
    match cwd {
        Some(dir) => {
            lemma_filter_commutes(
                ranked_for(needles, all_lowercase(needles), haystack),
                is_there,
                |p: Seq<char>| !path_eq(p, dir@),
            );
        },
        None => {},
    }
}

/// The candidates for `needles` among `entries`.
///
/// The matcher for the needles is built here, so there are candidates
/// exactly where both patterns of the needles are accepted.
pub fn candidates(
    entries: Vec<Entry>,
    needles: &[&str],
    cwd: Option<&str>,
) -> (r: Result<Vec<String>, MatcherError>)
    requires
        needles.len() > 0,
    ensures
        r is Ok <==> patterns_accepted(views(needles@), all_lowercase(views(needles@))),
        r matches Ok(found) ==> string_views(found@) == candidates_of(
            entries@,
            views(needles@),
            cwd,
        ),
        r matches Err(e) ==> e == MatcherError::PatternRefused,
{
    let sorted = sort_by_weight(entries);
    let mut paths: Vec<&str> = Vec::new();
    let mut i: usize = 0;
    while i < sorted.len()
        invariant
            i <= sorted.len(),
            paths.len() == i,
            forall|k: int| 0 <= k < i ==> paths[k]@ == sorted[k].path@,
        decreases sorted.len() - i,
    {
        paths.push(sorted[i].path.as_str());
        i += 1;
    }
    assert(views(paths@) =~= paths_of(sorted@));
    let mut wanted: Vec<&str> = Vec::new();
    let mut j: usize = 0;
    while j < needles.len()
        invariant
            j <= needles.len(),
            wanted.len() == j,
            forall|k: int| 0 <= k < j ==> wanted[k] == needles[k],
        decreases needles.len() - j,
    {
        wanted.push(needles[j]);
        j += 1;
    }
    assert(views(wanted@) =~= views(needles@));
    let matcher = Matcher::new_smartcase(wanted);
    candidates_from(matcher, paths.as_slice(), cwd)
}

/// The candidates that a matcher finds among `paths`: what it ranks, without
/// the current directory. Where no matcher could be built, the failure is
/// handed on.
pub fn candidates_from(
    matcher: Result<Matcher, MatcherError>,
    paths: &[&str],
    cwd: Option<&str>,
) -> (r: Result<Vec<String>, MatcherError>)
    ensures
        match matcher {
            Ok(m) => r matches Ok(found) && string_views(found@) == without_cwd(
                m.ranked(views(paths@)),
                cwd,
            ),
            Err(e) => r == Err::<Vec<String>, MatcherError>(e),
        },
{
    let matcher = match matcher {
        Ok(m) => m,
        Err(e) => {
            return Err(e);
        },
    };
    let ranked = matcher.execute(paths);
    match cwd {
        Some(dir) => {
            let mut keep: Vec<bool> = Vec::new();
            let mut k: usize = 0;
            while k < ranked.len()
                invariant
                    k <= ranked.len(),
                    keep.len() == k,
                    forall|n: int| 0 <= n < k ==> keep[n] == !path_eq(#[trigger] ranked[n]@, dir@),
                decreases ranked.len() - k,
            {
                keep.push(!same_path(ranked[k], dir));
                k += 1;
            }
            proof {
                lemma_picked_is_filter(
                    views(ranked@),
                    keep@,
                    |p: Seq<char>| !path_eq(p, dir@),
                );
            }
            let left = pick(ranked.as_slice(), keep.as_slice());
            Ok(to_strings(left.as_slice()))
        },
        None => Ok(to_strings(ranked.as_slice())),
    }
}

/// Takes from `candidates` what a query returns: those from `index` on,
/// `count` at most, and the fallback where it is due.
pub fn select(
    candidates: &Vec<String>,
    index: usize,
    count: usize,
    use_fallback: bool,
) -> (r: Vec<String>)
    ensures
        string_views(r@) == selection(string_views(candidates@), index, count, use_fallback),
{
    let len: usize = candidates.len();
    let start: usize = if index <= len {
        index
    } else {
        len
    };
    let end: usize = if count <= len - start {
        start + count
    } else {
        len
    };
    let mut r: Vec<String> = Vec::new();
    let mut i: usize = start;
    while i < end
        invariant
            start <= i <= end <= candidates.len(),
            r.len() == i - start,
            forall|k: int| 0 <= k < r.len() ==> r[k]@ == candidates[start + k]@,
        decreases end - i,
    {
        r.push(candidates[i].clone());
        i += 1;
    }
    if use_fallback && (r.len() == 0 || r.len() < count) {
        proof {
            reveal_strlit(".");
        }
        assert("."@ =~= fallback_path());
        r.push(String::from_str("."));
    }
    r
}

/// Runs the query `query` against the history `entries`, where `present[i]`
/// says whether the directory of `entries[i]` is still there.
///
/// There is an answer exactly where both patterns of the needles are
/// accepted, and it is the one that `outcome` states.
pub fn do_query(
    entries: Vec<Entry>,
    present: &[bool],
    query: &QueryConfig,
    cwd: Option<&str>,
) -> (r: Result<Vec<String>, MatcherError>)
    requires
        query.wf(),
    ensures
        r is Ok <==> patterns_accepted(query@.needles, all_lowercase(query@.needles)),
        r matches Ok(found) ==> string_views(found@) == outcome(entries@, present@, query@, cwd),
        r matches Err(e) ==> e == MatcherError::PatternRefused,
{
    let taking_part = if query.check_existence {
        purge(entries, present).entries
    } else {
        entries
    };
    let found = candidates(taking_part, query.needles.as_slice(), cwd);
    select_found(found, query.index, query.count, query.use_fallback)
}

/// What is returned of the candidates that a search came to: those from
/// `index` on, `count` at most, and the fallback where it is due. Where the
/// search failed, the failure is handed on.
pub fn select_found(
    found: Result<Vec<String>, MatcherError>,
    index: usize,
    count: usize,
    use_fallback: bool,
) -> (r: Result<Vec<String>, MatcherError>)
    ensures
        match found {
            Ok(candidates) => r matches Ok(selected) && string_views(selected@) == selection(
                string_views(candidates@),
                index,
                count,
                use_fallback,
            ),
            Err(e) => r == Err::<Vec<String>, MatcherError>(e),
        },
{
    match found {
        Ok(candidates) => Ok(select(&candidates, index, count, use_fallback)),
        Err(e) => Err(e),
    }
}

/// The first of the paths that a query for one path came to.
fn first_path(found: Result<Vec<String>, MatcherError>) -> (r: Result<String, MatcherError>)
    requires
        found matches Ok(paths) ==> paths.len() > 0,
    ensures
        match found {
            Ok(paths) => r matches Ok(path) && path@ == paths[0]@,
            Err(e) => r == Err::<String, MatcherError>(e),
        },
{
    match found {
        Ok(paths) => Ok(paths[0].clone()),
        Err(e) => Err(e),
    }
}

/// The directory to jump to for the tokens `needles`.
///
/// A token that carries a path is answered by that path, whatever the
/// history holds. Else the answer is the best match that still exists and is
/// not the current directory, counted from the index that the token asks
/// for, or `.` where there is none. It comes exactly where both patterns of
/// the needles are accepted.
pub fn query(
    entries: Vec<Entry>,
    present: &[bool],
    needles: &[&str],
    cwd: Option<&str>,
) -> (r: Result<String, MatcherError>)
    ensures
        match plan_of(views(needles@), true, 1, true) {
            QueryModel::EarlyResult(path) => r matches Ok(answer) && answer@ == path,
            QueryModel::Execute(plan) => {
                &&& r is Ok <==> patterns_accepted(plan.needles, all_lowercase(plan.needles))
                &&& r matches Ok(answer) ==> answer@ == answer_of(
                    candidates_of(live(entries@, present@, true), plan.needles, cwd),
                    plan.index,
                )
                &&& r matches Err(e) ==> e == MatcherError::PatternRefused
            },
        },
{
    match prepare_query(needles, true, 1, true) {
        Query::Execute(config) => {
            let found = do_query(entries, present, &config, cwd);
            proof {
                assert(config@.count == 1 && config@.use_fallback && config@.check_existence);
                lemma_one_answer(
                    candidates_of(live(entries@, present@, true), config@.needles, cwd),
                    config.index,
                );
                if found is Ok {
                    assert(string_views(found->Ok_0@).len() == 1);
                    assert(string_views(found->Ok_0@)[0] == found->Ok_0[0]@);
                }
            }
            first_path(found)
        },
        Query::EarlyResult(path) => Ok(String::from_str(path)),
    }
}

/// The token that a completion works on: the first one, or the empty token
/// where there is none.
pub open spec fn completed_token(needles: Seq<Seq<char>>) -> Seq<Seq<char>> {
    if needles.len() == 0 {
        seq![Seq::<char>::empty()]
    } else {
        seq![needles[0]]
    }
}

/// The lines of a completion menu for the candidates `found` under `needle`:
/// one token for each candidate, numbered from 1. A single candidate comes as
/// the bare path.
pub open spec fn menu_lines(needle: Seq<char>, found: Seq<Seq<char>>) -> Seq<Seq<char>> {
    if found.len() == 1 {
        found
    } else {
        Seq::new(
            found.len(),
            |i: int| encode(menu_entry(needle, (i + 1) as nat, found[i]), marker()),
        )
    }
}

/// Writes the completion menu for the candidates `found` under `needle`.
pub fn render_menu(needle: &str, found: &Vec<String>) -> (r: Vec<String>)
    ensures
        string_views(r@) == menu_lines(needle@, string_views(found@)),
{
    if found.len() == 1 {
        let mut r: Vec<String> = Vec::new();
        r.push(found[0].clone());
        return r;
    }
    let strs = as_strs(found);
    assert(views(strs@).len() == string_views(found@).len());
    let tab_entries = TabEntryInfo::from_matches(needle, strs.as_slice());
    let mut r: Vec<String> = Vec::new();
    let mut i: usize = 0;
    while i < tab_entries.len()
        invariant
            i <= tab_entries.len(),
            tab_entries.len() == found.len(),
            strs.len() == found.len(),
            views(strs@) == string_views(found@),
            r.len() == i,
            forall|k: int|
                0 <= k < tab_entries.len() ==> (#[trigger] tab_entries[k])@ == menu_entry(
                    needle@,
                    (k + 1) as nat,
                    strs[k]@,
                ),
            forall|k: int|
                0 <= k < i ==> r[k]@ == encode(
                    menu_entry(needle@, (k + 1) as nat, found[k]@),
                    marker(),
                ),
        decreases tab_entries.len() - i,
    {
        assert(found[i as int]@ == string_views(found@)[i as int]);
        r.push(tab_entries[i].to_line());
        i += 1;
    }
    r
}

/// The lines to offer the shell as completions of the tokens `needles`: up
/// to nine ranked candidates as a menu, a single candidate as the bare path.
/// Only the first token counts, and whether a directory still exists is not
/// looked at.
///
/// A token that carries a path is answered by that path alone. Else the
/// lines come exactly where both patterns of the needle are accepted.
pub fn complete(
    entries: Vec<Entry>,
    needles: &[&str],
    cwd: Option<&str>,
) -> (r: Result<Vec<String>, MatcherError>)
    ensures
        match plan_of(completed_token(views(needles@)), false, COMPLETE_COUNT, false) {
            QueryModel::EarlyResult(path) => r matches Ok(lines) && string_views(lines@) == seq![
                path,
            ],
            QueryModel::Execute(plan) => {
                &&& r is Ok <==> patterns_accepted(plan.needles, all_lowercase(plan.needles))
                &&& r matches Ok(lines) ==> string_views(lines@) == menu_lines(
                    plan.needles[0],
                    outcome(entries@, Seq::<bool>::empty(), plan, cwd),
                )
                &&& r matches Err(e) ==> e == MatcherError::PatternRefused
            },
        },
{
    proof {
        reveal_strlit("");
    }
    let needle: &str = if needles.len() == 0 {
        ""
    } else {
        needles[0]
    };
    let mut one: Vec<&str> = Vec::new();
    one.push(needle);
    assert(""@ =~= Seq::<char>::empty());
    assert(views(one@) =~= completed_token(views(needles@)));
    match prepare_query(one.as_slice(), false, COMPLETE_COUNT, false) {
        Query::Execute(config) => {
            let none: Vec<bool> = Vec::new();
            match do_query(entries, none.as_slice(), &config, cwd) {
                Ok(found) => {
                    Ok(render_menu(config.needles[0], &found))
                },
                Err(e) => Err(e),
            }
        },
        Query::EarlyResult(path) => {
            let mut lines: Vec<String> = Vec::new();
            lines.push(String::from_str(path));
            Ok(lines)
        },
    }
}

} // verus!
