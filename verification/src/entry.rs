//! The entries of the history and their order by weight.
use vstd::prelude::*;
use vstd::seq_lib::*;

verus! {

/// One directory of the history and its weight.
///
/// The weight is a double that is not negative, held as its IEEE 754 bit
/// pattern: arithmetic on weights is the caller's, while this crate orders
/// entries by weight and hands weights through.
#[derive(Clone, Debug)]
pub struct Entry {
    pub path: String,
    pub weight: u64,
}

/// An entry as plain values.
pub struct EntryModel {
    pub path: Seq<char>,
    pub weight: u64,
}

impl View for Entry {
    type V = EntryModel;

    open spec fn view(&self) -> EntryModel {
        EntryModel { path: self.path@, weight: self.weight }
    }
}

/// The entries of a list as plain values.
pub open spec fn models(entries: Seq<Entry>) -> Seq<EntryModel> {
    Seq::new(entries.len(), |i: int| entries[i]@)
}

/// The paths of a list of entries.
pub open spec fn paths_of(entries: Seq<Entry>) -> Seq<Seq<char>> {
    Seq::new(entries.len(), |i: int| entries[i].path@)
}

/// The bit pattern of the weight zero.
pub const ZERO_WEIGHT: u64 = 0;

/// The place of a weight among all weights: of two bit patterns, the one
/// with the greater rank is the greater double. Patterns without the sign bit
/// rank by their value, above all patterns with it, which rank in reverse.
pub open spec fn weight_rank(bits: u64) -> int {
    if bits < 0x8000_0000_0000_0000 {
        bits + 0x8000_0000_0000_0000
    } else {
        0xFFFF_FFFF_FFFF_FFFF - bits
    }
}

/// The rank of a weight.
pub fn rank_of(bits: u64) -> (r: u64)
    ensures
        r == weight_rank(bits),
{
    if bits < 0x8000_0000_0000_0000 {
        bits + 0x8000_0000_0000_0000
    } else {
        0xFFFF_FFFF_FFFF_FFFF - bits
    }
}

/// Whether the weights of `entries` never rise from one entry to the next.
pub open spec fn is_descending(entries: Seq<Entry>) -> bool {
    forall|i: int, j: int|
        0 <= i < j < entries.len() ==> weight_rank(entries[i].weight) >= weight_rank(
            entries[j].weight,
        )
}

/// `e` put into `sorted`, behind every entry that weighs as much or more.
pub open spec fn placed(sorted: Seq<Entry>, e: Entry) -> Seq<Entry>
    decreases sorted.len(),
{
    if sorted.len() == 0 {
        seq![e]
    } else if weight_rank(sorted.last().weight) >= weight_rank(e.weight) {
        sorted.push(e)
    } else {
        placed(sorted.drop_last(), e).push(sorted.last())
    }
}

/// The entries by descending weight. Entries of one weight keep the order
/// that they had.
pub open spec fn by_weight(entries: Seq<Entry>) -> Seq<Entry>
    decreases entries.len(),
{
    if entries.len() == 0 {
        entries
    } else {
        placed(by_weight(entries.drop_last()), entries.last())
    }
}

/// Where everything from `p` on weighs less than `e`, and what stands before
/// `p` weighs as much or more, `e` is placed at `p`.
proof fn lemma_placed_is_insert(sorted: Seq<Entry>, e: Entry, p: int)
    requires
        0 <= p <= sorted.len(),
        forall|k: int| p <= k < sorted.len() ==> weight_rank(sorted[k].weight) < weight_rank(e.weight),
        p == 0 || weight_rank(sorted[p - 1].weight) >= weight_rank(e.weight),
    ensures
        placed(sorted, e) == sorted.insert(p, e),
    decreases sorted.len() - p,
{
    if p < sorted.len() {
        lemma_placed_is_insert(sorted.drop_last(), e, p);
    }
}

/// Placing an entry keeps a descending list descending, and adds the entry
/// to what the list holds.
proof fn lemma_placed(sorted: Seq<Entry>, e: Entry)
    requires
        is_descending(sorted),
    ensures
        is_descending(placed(sorted, e)),
        placed(sorted, e).to_multiset() == sorted.to_multiset().insert(e),
        placed(sorted, e).len() == sorted.len() + 1,
    decreases sorted.len(),
{
    broadcast use group_to_multiset_ensures;

    if sorted.len() > 0 && weight_rank(sorted.last().weight) < weight_rank(e.weight) {
        let front = sorted.drop_last();
        lemma_placed(front, e);
        let inner = placed(front, e);
        assert(sorted =~= front.push(sorted.last()));
        assert forall|i: int, j: int| 0 <= i < j < inner.push(sorted.last()).len() implies weight_rank(
            inner.push(sorted.last())[i].weight,
        ) >= weight_rank(inner.push(sorted.last())[j].weight) by {
            if j == inner.len() {
                let x = inner[i];
                assert(inner.to_multiset().count(x) > 0);
            }
        }
    }
}

/// Sorting by weight gives a descending list.
pub proof fn lemma_by_weight_descending(entries: Seq<Entry>)
    ensures
        is_descending(by_weight(entries)),
    decreases entries.len(),
{
    if entries.len() > 0 {
        lemma_by_weight_descending(entries.drop_last());
        lemma_placed(by_weight(entries.drop_last()), entries.last());
    }
}

/// Sorting by weight rearranges the entries: none is lost, added or changed.
pub proof fn lemma_by_weight_permutes(entries: Seq<Entry>)
    ensures
        by_weight(entries).to_multiset() == entries.to_multiset(),
        by_weight(entries).len() == entries.len(),
    decreases entries.len(),
{
    broadcast use group_to_multiset_ensures;

    if entries.len() > 0 {
        lemma_by_weight_permutes(entries.drop_last());
        lemma_by_weight_descending(entries.drop_last());
        lemma_placed(by_weight(entries.drop_last()), entries.last());
        assert(entries =~= entries.drop_last().push(entries.last()));
    }
}

/// An entry that weighs no more than any entry of `sorted` is placed last.
proof fn lemma_placed_last(sorted: Seq<Entry>, e: Entry)
    requires
        forall|i: int|
            0 <= i < sorted.len() ==> weight_rank(sorted[i].weight) >= weight_rank(e.weight),
    ensures
        placed(sorted, e) == sorted.push(e),
{
}

/// Placing an entry and then keeping what meets `keep` gives what keeping
/// first and then placing the entry, if it is kept, gives.
proof fn lemma_placed_filter(sorted: Seq<Entry>, e: Entry, keep: spec_fn(Entry) -> bool)
    requires
        is_descending(sorted),
    ensures
        placed(sorted, e).filter(keep) == if keep(e) {
            placed(sorted.filter(keep), e)
        } else {
            sorted.filter(keep)
        },
    decreases sorted.len(),
{
    let kept = sorted.filter(keep);
    if sorted.len() == 0 {
        assert(sorted.push(e) =~= seq![e]);
        sorted.lemma_filter_push(e, keep);
        assert(kept.len() == 0) by {
            sorted.lemma_filter_len(keep);
        }
    } else if weight_rank(sorted.last().weight) >= weight_rank(e.weight) {
        sorted.lemma_filter_push(e, keep);
        if keep(e) {
            assert forall|i: int| 0 <= i < kept.len() implies weight_rank(kept[i].weight)
                >= weight_rank(e.weight) by {
                sorted.lemma_filter_contains_rev(keep, kept[i]);
            }
            lemma_placed_last(kept, e);
        }
    } else {
        let front = sorted.drop_last();
        let last = sorted.last();
        lemma_placed_filter(front, e, keep);
        placed(front, e).lemma_filter_push(last, keep);
        assert(sorted =~= front.push(last));
        front.lemma_filter_push(last, keep);
        if keep(e) && keep(last) {
            assert(front.filter(keep).push(last).drop_last() =~= front.filter(keep));
        }
    }
}

/// Sorting what meets `keep` gives what is left of the sorted entries when
/// only those that meet `keep` are kept: entries that are left out do not
/// change the order of the others.
pub proof fn lemma_by_weight_filter(entries: Seq<Entry>, keep: spec_fn(Entry) -> bool)
    ensures
        by_weight(entries.filter(keep)) == by_weight(entries).filter(keep),
    decreases entries.len(),
{
    if entries.len() == 0 {
        entries.lemma_filter_len(keep);
    } else {
        let front = entries.drop_last();
        let last = entries.last();
        lemma_by_weight_filter(front, keep);
        lemma_by_weight_descending(front);
        lemma_placed_filter(by_weight(front), last, keep);
        assert(entries =~= front.push(last));
        front.lemma_filter_push(last, keep);
        if keep(last) {
            assert(front.filter(keep).push(last).drop_last() =~= front.filter(keep));
        }
    }
}

impl Entry {
    /// The entry for `path` with the weight whose bit pattern is `weight`.
    pub fn new(path: &str, weight: u64) -> (r: Entry)
        ensures
            r@ == (EntryModel { path: path@, weight }),
    {
        Entry { path: String::from_str(path), weight }
    }

    /// A copy of this entry.
    pub fn duplicate(&self) -> (r: Entry)
        ensures
            r == *self,
    {
        Entry { path: self.path.clone(), weight: self.weight }
    }
}

/// Sorts the entries by descending weight. Entries of one weight keep the
/// order that they had.
pub fn sort_by_weight(entries: Vec<Entry>) -> (r: Vec<Entry>)
    ensures
        r@ == by_weight(entries@),
{
    let mut r: Vec<Entry> = Vec::new();
    let ghost mut done: Seq<Entry> = Seq::empty();
    for e in it: entries
        invariant
            done == it.seq().take(it.index() as int),
            r@ == by_weight(done),
    {
        proof {
            assert(done.push(e).drop_last() =~= done);
            done = done.push(e);
        }
        let key: u64 = rank_of(e.weight);
        let mut p: usize = r.len();
        while p > 0 && rank_of(r[p - 1].weight) < key
            invariant
                p <= r.len(),
                key == weight_rank(e.weight),
                forall|k: int| p <= k < r.len() ==> weight_rank(r[k].weight) < key,
            decreases p,
        {
            p -= 1;
        }
        proof {
            lemma_placed_is_insert(r@, e, p as int);
        }
        r.insert(p, e);
    }
    assert(done =~= entries@);
    r
}

} // verus!
