//! The fuzzy tier: how close the last needle is to a path's last component.
use vstd::prelude::*;
use crate::path::{file_name, file_name_of};
use crate::select::{lemma_picked_is_filter, pick};
use crate::text::views;

verus! {

/// The least similarity that counts as a match: six tenths, written as the
/// bit pattern of an IEEE 754 double.
pub const DEFAULT_FUZZY_THRESHOLD: u64 = 0x3FE3_3333_3333_3333;

/// The Jaro-Winkler similarity of `a` and `b` as the `strsim` crate computes
/// it, written as the bit pattern of the double that it returns.
pub uninterp spec fn jaro_winkler_bits(a: Seq<char>, b: Seq<char>) -> u64;

/// `strsim::jaro_winkler`: the similarity of two strings, a double between
/// zero and one, handed on as its bit pattern. It depends on the characters
/// of the two strings alone.
#[verifier::external_body]
fn similarity(a: &str, b: &str) -> (bits: u64)
    ensures
        bits == jaro_winkler_bits(a@, b@),
{
    strsim::jaro_winkler(a, b).to_bits()
}

/// The bit that tells a negative double from a positive one.
pub const SIGN_BIT: u64 = 0x8000_0000_0000_0000;

/// The bit pattern of positive infinity. A pattern whose other bits make a
/// greater number stands for no number at all.
pub const INFINITY_BITS: u64 = 0x7FF0_0000_0000_0000;

/// The bits of a double without its sign.
pub open spec fn magnitude(bits: u64) -> int {
    if bits >= SIGN_BIT {
        bits - SIGN_BIT
    } else {
        bits as int
    }
}

/// Whether a bit pattern stands for a number, infinite or not.
pub open spec fn is_number(bits: u64) -> bool {
    magnitude(bits) <= INFINITY_BITS
}

/// Where a double stands among the doubles: of two numbers, the one with the
/// greater place is the greater, and the two zeros share a place.
pub open spec fn place(bits: u64) -> int {
    if bits >= SIGN_BIT {
        -magnitude(bits)
    } else {
        magnitude(bits)
    }
}

/// Whether the double `a` is greater than or equal to the double `b`, both
/// given as bit patterns. What is no number is neither.
pub open spec fn at_least(a: u64, b: u64) -> bool {
    is_number(a) && is_number(b) && place(a) >= place(b)
}

/// Whether the double `a` is greater than or equal to the double `b`.
pub fn is_at_least(a: u64, b: u64) -> (r: bool)
    ensures
        r == at_least(a, b),
{
    let a_negative: bool = a >= SIGN_BIT;
    let b_negative: bool = b >= SIGN_BIT;
    let a_size: u64 = if a_negative {
        a - SIGN_BIT
    } else {
        a
    };
    let b_size: u64 = if b_negative {
        b - SIGN_BIT
    } else {
        b
    };
    if a_size > INFINITY_BITS || b_size > INFINITY_BITS {
        false
    } else if a_negative {
        if b_negative {
            a_size <= b_size
        } else {
            a_size == 0 && b_size == 0
        }
    } else {
        if b_negative {
            true
        } else {
            a_size >= b_size
        }
    }
}

/// Whether `needle` is similar enough to the last component of `path`: the
/// path has one, and the similarity of needle and component is at least the
/// double with the bit pattern `threshold`.
pub open spec fn fuzzy_accepts(needle: Seq<char>, threshold: u64, path: Seq<char>) -> bool {
    match file_name_of(path) {
        Some(name) => at_least(jaro_winkler_bits(needle, name), threshold),
        None => false,
    }
}

/// What the fuzzy tier keeps of `haystack`, in its order.
pub open spec fn fuzzy_tier(
    needle: Seq<char>,
    threshold: u64,
    haystack: Seq<Seq<char>>,
) -> Seq<Seq<char>> {
    haystack.filter(|p: Seq<char>| fuzzy_accepts(needle, threshold, p))
}

/// A fuzzy matcher based on Jaro-Winkler similarity.
///
/// The similarity is taken between the needle and the last component of a
/// path. Similarities and the threshold are held as bit patterns of doubles
/// and compared as the doubles compare: see `at_least`.
pub struct FuzzyMatcher<'a> {
    needle: &'a str,
    threshold: u64,
}

impl<'a> FuzzyMatcher<'a> {
    /// The needle that paths are compared with.
    pub closed spec fn needle(&self) -> Seq<char> {
        self.needle@
    }

    /// The least similarity that is accepted, as a bit pattern.
    pub closed spec fn threshold(&self) -> u64 {
        self.threshold
    }

    /// Whether this matcher keeps `path`.
    pub open spec fn accepts(&self, path: Seq<char>) -> bool {
        fuzzy_accepts(self.needle(), self.threshold(), path)
    }

    /// A matcher for `needle` with the default threshold.
    pub fn defaults(needle: &'a str) -> (r: FuzzyMatcher<'a>)
        ensures
            r.needle() == needle@,
            r.threshold() == DEFAULT_FUZZY_THRESHOLD,
    {
        FuzzyMatcher::new(needle, DEFAULT_FUZZY_THRESHOLD)
    }

    /// A matcher for `needle` that keeps what is at least as similar as the
    /// double with the bit pattern `threshold`.
    pub fn new(needle: &'a str, threshold: u64) -> (r: FuzzyMatcher<'a>)
        ensures
            r.needle() == needle@,
            r.threshold() == threshold,
    {
        FuzzyMatcher { needle, threshold }
    }

    /// For each path, whether this matcher keeps it.
    pub fn hits(&self, paths: &[&str]) -> (flags: Vec<bool>)
        ensures
            flags.len() == paths.len(),
            forall|i: int| 0 <= i < paths.len() ==> flags[i] == self.accepts(#[trigger] paths[i]@),
    {
        let mut flags: Vec<bool> = Vec::new();
        let mut i: usize = 0;
        while i < paths.len()
            invariant
                i <= paths.len(),
                flags.len() == i,
                forall|k: int| 0 <= k < i ==> flags[k] == self.accepts(#[trigger] paths[k]@),
            decreases paths.len() - i,
        {
            let hit = match file_name(paths[i]) {
                Some(name) => is_at_least(similarity(self.needle, name), self.threshold),
                None => false,
            };
            flags.push(hit);
            i += 1;
        }
        flags
    }

    /// The paths that this matcher keeps, in their order.
    pub fn filter_path<'p>(&self, paths: &'p [&'p str]) -> (r: Vec<&'p str>)
        ensures
            views(r@) == fuzzy_tier(self.needle(), self.threshold(), views(paths@)),
    {
        let flags = self.hits(paths);
        proof {
            lemma_picked_is_filter(
                views(paths@),
                flags@,
                |p: Seq<char>| fuzzy_accepts(self.needle(), self.threshold(), p),
            );
        }
        pick(paths, flags.as_slice())
    }
}

} // verus!
