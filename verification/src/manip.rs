//! Changing the weight of a directory.
//!
//! Weights are doubles held as bit patterns, and the arithmetic on them is
//! not done here: each function takes it as a closure from the old weight and
//! the amount to the new weight. What is decided here is which entry is
//! changed, and what happens where there is none yet.
use vstd::prelude::*;
use crate::entry::{models, Entry, EntryModel, ZERO_WEIGHT};
use crate::path::{path_eq, same_path};

verus! {

/// The amount by which a weight grows where none is given: ten, as the bit
/// pattern of a double.
pub const DEFAULT_INCREASE_WEIGHT: u64 = 0x4024_0000_0000_0000;

/// The amount by which a weight shrinks where none is given: fifteen, as the
/// bit pattern of a double.
pub const DEFAULT_DECREASE_WEIGHT: u64 = 0x402E_0000_0000_0000;

/// Whether an entry of `entries` is for `path`.
pub open spec fn is_known(entries: Seq<Entry>, path: Seq<char>) -> bool {
    exists|i: int| 0 <= i < entries.len() && path_eq(#[trigger] entries[i].path@, path)
}

/// Whether the entry at `i` is the first of `entries` that is for `path`.
pub open spec fn is_first_for(entries: Seq<Entry>, path: Seq<char>, i: int) -> bool {
    &&& 0 <= i < entries.len()
    &&& path_eq(entries[i].path@, path)
    &&& forall|j: int| 0 <= j < i ==> !path_eq(#[trigger] entries[j].path@, path)
}

/// Whether `path` is the home directory.
pub open spec fn is_home(path: Seq<char>, home: Option<&str>) -> bool {
    home matches Some(h) && path_eq(path, h@)
}

/// A path has one first entry at most.
pub proof fn lemma_first_for_unique(entries: Seq<Entry>, path: Seq<char>, i: int, k: int)
    requires
        is_first_for(entries, path, i),
        is_first_for(entries, path, k),
    ensures
        i == k,
{
}

/// A path that has a first entry is known.
pub proof fn lemma_first_for_is_known(entries: Seq<Entry>, path: Seq<char>, i: int)
    requires
        is_first_for(entries, path, i),
    ensures
        is_known(entries, path),
{
}

/// The place of the first entry for `path`.
pub fn position(entries: &Vec<Entry>, path: &str) -> (r: Option<usize>)
    ensures
        r matches Some(i) ==> is_first_for(entries@, path@, i as int),
        r is None ==> !is_known(entries@, path@),
{
    let mut i: usize = 0;
    while i < entries.len()
        invariant
            i <= entries.len(),
            forall|j: int| 0 <= j < i ==> !path_eq(#[trigger] entries[j].path@, path@),
        decreases entries.len() - i,
    {
        if same_path(entries[i].path.as_str(), path) {
            return Some(i);
        }
        i += 1;
    }
    None
}

/// Gives the first entry for `path` the weight that `change` makes of its
/// old one and of `w`, and returns a copy of the entry as it then stands.
fn reweigh<F: Fn(u64, u64) -> u64>(
    entries: &mut Vec<Entry>,
    i: usize,
    w: u64,
    change: F,
) -> (e: Entry)
    requires
        i < old(entries).len(),
        call_requires(change, (old(entries)[i as int].weight, w)),
    ensures
        e.path@ == old(entries)[i as int].path@,
        call_ensures(change, (old(entries)[i as int].weight, w), e.weight),
        models(final(entries)@) == models(old(entries)@).update(i as int, e@),
{
    let new_weight: u64 = change(entries[i].weight, w);
    entries[i].weight = new_weight;
    entries[i].duplicate()
}

/// Appends an entry for `path` with the weight `w` and returns a copy of it.
fn append_entry(entries: &mut Vec<Entry>, path: &str, w: u64) -> (e: Entry)
    ensures
        e@ == (EntryModel { path: path@, weight: w }),
        models(final(entries)@) == models(old(entries)@).push(e@),
{
    let entry = Entry::new(path, w);
    let e = entry.duplicate();
    entries.push(entry);
    e
}

/// What raising the weight of `p` by `w` makes of the entries `before`: the
/// entries `after` and the entry `e` that is handed back.
///
/// The home directory is never ranked: for it nothing is changed, and `e` has
/// the weight zero. Else the first entry for `p` gets a weight that `raise`
/// makes of its weight and of `w`, and `e` is that entry. Where there is no
/// entry for `p`, one is appended with the weight `w`.
pub open spec fn increased<F: Fn(u64, u64) -> u64>(
    before: Seq<Entry>,
    after: Seq<Entry>,
    p: Seq<char>,
    home: Option<&str>,
    w: u64,
    raise: F,
    e: Entry,
) -> bool {
    &&& is_home(p, home) ==> {
        &&& e@ == (EntryModel { path: p, weight: ZERO_WEIGHT })
        &&& models(after) == models(before)
    }
    &&& !is_home(p, home) && !is_known(before, p) ==> {
        &&& e@ == (EntryModel { path: p, weight: w })
        &&& models(after) == models(before).push(e@)
    }
    &&& forall|i: int|
        !is_home(p, home) && is_first_for(before, p, i) ==> {
            &&& e.path@ == before[i].path@
            &&& call_ensures(raise, (before[i].weight, w), e.weight)
            &&& models(after) == models(before).update(i, e@)
        }
}

/// What lowering the weight of `p` by `w` makes of the entries `before`: the
/// entries `after` and the entry `e` that is handed back.
///
/// The first entry for `p` gets a weight that `lower` makes of its weight and
/// of `w`, and `e` is that entry. Where there is no entry for `p`, one is
/// appended with the weight zero, whatever `w` is.
pub open spec fn decreased<F: Fn(u64, u64) -> u64>(
    before: Seq<Entry>,
    after: Seq<Entry>,
    p: Seq<char>,
    w: u64,
    lower: F,
    e: Entry,
) -> bool {
    &&& !is_known(before, p) ==> {
        &&& e@ == (EntryModel { path: p, weight: ZERO_WEIGHT })
        &&& models(after) == models(before).push(e@)
    }
    &&& forall|i: int|
        is_first_for(before, p, i) ==> {
            &&& e.path@ == before[i].path@
            &&& call_ensures(lower, (before[i].weight, w), e.weight)
            &&& models(after) == models(before).update(i, e@)
        }
}

/// Raises the weight of `p` by `w` and returns the entry as it then stands.
pub fn do_increase<F: Fn(u64, u64) -> u64>(
    entries: &mut Vec<Entry>,
    p: &str,
    home: Option<&str>,
    w: u64,
    raise: F,
) -> (e: Entry)
    requires
        forall|a: u64, b: u64| call_requires(raise, (a, b)),
    ensures
        increased(old(entries)@, final(entries)@, p@, home, w, raise, e),
{
    if let Some(h) = home {
        if same_path(p, h) {
            return Entry::new(p, ZERO_WEIGHT);
        }
    }
    match position(entries, p) {
        Some(i) => {
            let e = reweigh(entries, i, w, raise);
            assert forall|k: int| is_first_for(old(entries)@, p@, k) implies k == i by {
                lemma_first_for_unique(old(entries)@, p@, i as int, k);
            }
            e
        },
        None => {
            let e = append_entry(entries, p, w);
            assert forall|k: int| !is_first_for(old(entries)@, p@, k) by {
                if is_first_for(old(entries)@, p@, k) {
                    lemma_first_for_is_known(old(entries)@, p@, k);
                }
            }
            e
        },
    }
}

/// Lowers the weight of `p` by `w` and returns the entry as it then stands.
pub fn do_decrease<F: Fn(u64, u64) -> u64>(
    entries: &mut Vec<Entry>,
    p: &str,
    w: u64,
    lower: F,
) -> (e: Entry)
    requires
        forall|a: u64, b: u64| call_requires(lower, (a, b)),
    ensures
        decreased(old(entries)@, final(entries)@, p@, w, lower, e),
{
    match position(entries, p) {
        Some(i) => {
            let e = reweigh(entries, i, w, lower);
            assert forall|k: int| is_first_for(old(entries)@, p@, k) implies k == i by {
                lemma_first_for_unique(old(entries)@, p@, i as int, k);
            }
            e
        },
        None => {
            let e = append_entry(entries, p, ZERO_WEIGHT);
            assert forall|k: int| !is_first_for(old(entries)@, p@, k) by {
                if is_first_for(old(entries)@, p@, k) {
                    lemma_first_for_is_known(old(entries)@, p@, k);
                }
            }
            e
        },
    }
}

/// Adds the directory `p` to the history, or raises its weight by the
/// default amount where it is there already.
pub fn add<F: Fn(u64, u64) -> u64>(
    entries: &mut Vec<Entry>,
    p: &str,
    home: Option<&str>,
    raise: F,
) -> (e: Entry)
    requires
        forall|a: u64, b: u64| call_requires(raise, (a, b)),
    ensures
        increased(old(entries)@, final(entries)@, p@, home, DEFAULT_INCREASE_WEIGHT, raise, e),
{
    do_increase(entries, p, home, DEFAULT_INCREASE_WEIGHT, raise)
}

/// The amount to work with: the one given, or `default`.
pub open spec fn amount(w: Option<u64>, default: u64) -> u64 {
    match w {
        Some(w) => w,
        None => default,
    }
}

/// Raises the weight of the current directory `cwd` by `w`, or by the default
/// amount where none is given. Without a current directory nothing can be
/// done, and nothing is.
pub fn increase<F: Fn(u64, u64) -> u64>(
    entries: &mut Vec<Entry>,
    cwd: Option<&str>,
    home: Option<&str>,
    w: Option<u64>,
    raise: F,
) -> (r: Option<Entry>)
    requires
        forall|a: u64, b: u64| call_requires(raise, (a, b)),
    ensures
        match (cwd, r) {
            (Some(p), Some(e)) => increased(
                old(entries)@,
                final(entries)@,
                p@,
                home,
                amount(w, DEFAULT_INCREASE_WEIGHT),
                raise,
                e,
            ),
            (None, None) => final(entries)@ == old(entries)@,
            _ => false,
        },
{
    let w: u64 = match w {
        Some(w) => w,
        None => DEFAULT_INCREASE_WEIGHT,
    };
    match cwd {
        Some(p) => Some(do_increase(entries, p, home, w, raise)),
        None => None,
    }
}

/// Lowers the weight of the current directory `cwd` by `w`, or by the default
/// amount where none is given. Without a current directory nothing can be
/// done, and nothing is.
pub fn decrease<F: Fn(u64, u64) -> u64>(
    entries: &mut Vec<Entry>,
    cwd: Option<&str>,
    w: Option<u64>,
    lower: F,
) -> (r: Option<Entry>)
    requires
        forall|a: u64, b: u64| call_requires(lower, (a, b)),
    ensures
        match (cwd, r) {
            (Some(p), Some(e)) => decreased(
                old(entries)@,
                final(entries)@,
                p@,
                amount(w, DEFAULT_DECREASE_WEIGHT),
                lower,
                e,
            ),
            (None, None) => final(entries)@ == old(entries)@,
            _ => false,
        },
{
    let w: u64 = match w {
        Some(w) => w,
        None => DEFAULT_DECREASE_WEIGHT,
    };
    match cwd {
        Some(p) => Some(do_decrease(entries, p, w, lower)),
        None => None,
    }
}

} // verus!
