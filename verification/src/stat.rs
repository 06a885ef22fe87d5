//! What the history says of the directory that we are in.
use vstd::prelude::*;
use crate::entry::{Entry, ZERO_WEIGHT};
use crate::manip::{
    is_first_for, is_known, lemma_first_for_is_known, lemma_first_for_unique, position,
};

verus! {

/// The weight of the current directory `cwd`: that of the first entry for
/// it, or zero where the history has none. Without a current directory there
/// is nothing to report.
pub fn cwd_weight(entries: &Vec<Entry>, cwd: Option<&str>) -> (r: Option<u64>)
    ensures
        r is Some <==> cwd is Some,
        cwd matches Some(dir) ==> {
            &&& !is_known(entries@, dir@) ==> r == Some(ZERO_WEIGHT)
            &&& forall|i: int| is_first_for(entries@, dir@, i) ==> r == Some(entries[i].weight)
        },
{
    match cwd {
        Some(dir) => match position(entries, dir) {
            Some(i) => {
                assert forall|k: int| is_first_for(entries@, dir@, k) implies k == i by {
                    lemma_first_for_unique(entries@, dir@, i as int, k);
                }
                Some(entries[i].weight)
            },
            None => {
                assert forall|k: int| !is_first_for(entries@, dir@, k) by {
                    if is_first_for(entries@, dir@, k) {
                        lemma_first_for_is_known(entries@, dir@, k);
                    }
                }
                Some(ZERO_WEIGHT)
            },
        },
        None => None,
    }
}

} // verus!
