//! Dropping the directories that are gone.
use vstd::prelude::*;
use crate::entry::Entry;
use crate::select::{lemma_picked_len, picked};

verus! {

/// What a purge leaves and how much it took away.
pub struct Purged {
    pub entries: Vec<Entry>,
    pub removed: usize,
}

/// Keeps the entries whose directory is still there: `present[i]` says
/// whether the path of `entries[i]` exists. The entries that stay are not
/// changed and keep their order.
pub fn purge(entries: Vec<Entry>, present: &[bool]) -> (r: Purged)
    ensures
        r.entries@ == picked(entries@, present@),
        r.removed == entries.len() - r.entries.len(),
{
    let old_len: usize = entries.len();
    let mut kept: Vec<Entry> = Vec::new();
    let ghost mut done: Seq<Entry> = Seq::empty();
    let mut i: usize = 0;
    for e in it: entries
        invariant
            done == it.seq().take(it.index() as int),
            i == it.index(),
            it.seq().len() == old_len,
            kept@ == picked(done, present@),
    {
        proof {
            assert(done.push(e).drop_last() =~= done);
            done = done.push(e);
        }
        if i < present.len() && present[i] {
            kept.push(e);
        }
        i += 1;
    }
    assert(done =~= entries@);
    proof {
        lemma_picked_len(entries@, present@);
    }
    let removed: usize = old_len - kept.len();
    Purged { entries: kept, removed }
}

} // verus!
