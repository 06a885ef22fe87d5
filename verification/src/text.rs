//! Strings as sequences of characters: the vocabulary that the rest of the
//! crate states its contracts in, and the few helpers that work on it.
use vstd::prelude::*;

verus! {

/// `String::push` appends one character and touches nothing else.
pub assume_specification[ String::push ](s: &mut String, c: char)
    ensures
        final(s)@ == old(s)@.push(c),
;

/// Equality of string slices (`str::eq`) is equality of their characters.
#[verifier::external_body]
pub(crate) fn str_eq(a: &str, b: &str) -> (r: bool)
    ensures
        r == (a@ == b@),
{
    a == b
}

/// The views of a list of string slices.
pub open spec fn views(items: Seq<&str>) -> Seq<Seq<char>> {
    Seq::new(items.len(), |i: int| items[i]@)
}

/// The views of a list of owned strings.
pub open spec fn string_views(items: Seq<String>) -> Seq<Seq<char>> {
    Seq::new(items.len(), |i: int| items[i]@)
}

/// Borrows each string of a list.
pub(crate) fn as_strs<'a>(items: &'a Vec<String>) -> (r: Vec<&'a str>)
    ensures
        views(r@) == string_views(items@),
{
    let mut r: Vec<&'a str> = Vec::new();
    let mut i: usize = 0;
    while i < items.len()
        invariant
            i <= items.len(),
            r.len() == i,
            forall|k: int| 0 <= k < i ==> r[k]@ == items[k]@,
        decreases items.len() - i,
    {
        r.push(items[i].as_str());
        i += 1;
    }
    r
}

/// Copies each string of a list.
pub(crate) fn to_strings(items: &[&str]) -> (r: Vec<String>)
    ensures
        string_views(r@) == views(items@),
{
    let mut r: Vec<String> = Vec::new();
    let mut i: usize = 0;
    while i < items.len()
        invariant
            i <= items.len(),
            r.len() == i,
            forall|k: int| 0 <= k < i ==> r[k]@ == items[k]@,
        decreases items.len() - i,
    {
        r.push(String::from_str(items[i]));
        i += 1;
    }
    r
}

/// `pat` stands in `s` at position `i`.
pub open spec fn occurs_at(s: Seq<char>, pat: Seq<char>, i: int) -> bool {
    0 <= i && i + pat.len() <= s.len() && s.subrange(i, i + pat.len()) == pat
}

/// `pat` stands in `s` at position `i` and nowhere before it.
pub open spec fn is_first_occurrence(s: Seq<char>, pat: Seq<char>, i: int) -> bool {
    occurs_at(s, pat, i) && forall|j: int| 0 <= j < i ==> !occurs_at(s, pat, j)
}

/// The position of the first occurrence of `pat` in `s`, if there is one.
#[verifier::opaque]
pub open spec fn find(s: Seq<char>, pat: Seq<char>) -> Option<int> {
    if exists|i: int| occurs_at(s, pat, i) {
        Some(choose|i: int| is_first_occurrence(s, pat, i))
    } else {
        None
    }
}

/// A first occurrence is the one that `find` reports.
pub proof fn lemma_find_some(s: Seq<char>, pat: Seq<char>, i: int)
    requires
        is_first_occurrence(s, pat, i),
    ensures
        find(s, pat) == Some(i),
{
    reveal(find);
}

/// Where `pat` stands nowhere, `find` reports nothing.
pub proof fn lemma_find_none(s: Seq<char>, pat: Seq<char>)
    requires
        forall|j: int| !occurs_at(s, pat, j),
    ensures
        find(s, pat) is None,
{
    reveal(find);
}

/// What `find` reports is a first occurrence.
pub proof fn lemma_find_is_first(s: Seq<char>, pat: Seq<char>)
    ensures
        find(s, pat) matches Some(i) ==> is_first_occurrence(s, pat, i),
        find(s, pat) is None ==> forall|j: int| !occurs_at(s, pat, j),
{
    reveal(find);
    if exists|i: int| occurs_at(s, pat, i) {
        let w = choose|i: int| occurs_at(s, pat, i);
        lemma_least_occurrence(s, pat, w);
    }
}

/// Below any occurrence there is a first one.
proof fn lemma_least_occurrence(s: Seq<char>, pat: Seq<char>, w: int)
    requires
        occurs_at(s, pat, w),
    ensures
        exists|i: int| is_first_occurrence(s, pat, i),
    decreases w,
{
    if exists|j: int| 0 <= j < w && occurs_at(s, pat, j) {
        let j = choose|j: int| 0 <= j < w && occurs_at(s, pat, j);
        lemma_least_occurrence(s, pat, j);
    } else {
        assert(is_first_occurrence(s, pat, w));
    }
}

/// The characters of a string slice, one by one.
pub(crate) fn to_chars(s: &str) -> (v: Vec<char>)
    ensures
        v@ == s@,
{
    let mut v: Vec<char> = Vec::new();
    for c in it: s.chars()
        invariant
            v@ == it.seq().take(it.index() as int),
    {
        v.push(c);
    }
    v
}

/// The string made of the characters `chars[from..to]`.
pub(crate) fn from_chars(chars: &Vec<char>, from: usize, to: usize) -> (s: String)
    requires
        from <= to <= chars.len(),
    ensures
        s@ == chars@.subrange(from as int, to as int),
{
    let mut s = String::new();
    let mut i: usize = from;
    while i < to
        invariant
            from <= i <= to <= chars.len(),
            s@ == chars@.subrange(from as int, i as int),
        decreases to - i,
    {
        s.push(chars[i]);
        i += 1;
    }
    s
}

/// Whether `pat` stands in `hay` at position `i`.
pub(crate) fn matches_at(hay: &Vec<char>, pat: &Vec<char>, i: usize) -> (b: bool)
    requires
        i + pat.len() <= hay.len(),
    ensures
        b == occurs_at(hay@, pat@, i as int),
{
    let mut k: usize = 0;
    while k < pat.len()
        invariant
            k <= pat.len(),
            i + pat.len() <= hay.len(),
            forall|j: int| 0 <= j < k ==> hay@[i + j] == pat@[j],
        decreases pat.len() - k,
    {
        if hay[i + k] != pat[k] {
            return false;
        }
        k += 1;
    }
    assert(hay@.subrange(i as int, i + pat.len()) =~= pat@);
    true
}

/// The position of the first occurrence of `pat` in `hay`.
pub(crate) fn find_first(hay: &Vec<char>, pat: &Vec<char>) -> (r: Option<usize>)
    ensures
        r matches Some(i) ==> find(hay@, pat@) == Some(i as int) && is_first_occurrence(
            hay@,
            pat@,
            i as int,
        ),
        r is None ==> find(hay@, pat@) is None,
{
    if pat.len() > hay.len() {
        proof {
            lemma_find_none(hay@, pat@);
        }
        return None;
    }
    if pat.len() == 0 {
        proof {
            assert(hay@.subrange(0, 0) =~= pat@);
            lemma_find_some(hay@, pat@, 0);
        }
        return Some(0);
    }
    let last: usize = hay.len() - pat.len();
    let mut i: usize = 0;
    while i <= last
        invariant
            last == hay.len() - pat.len(),
            last < usize::MAX,
            i <= last + 1,
            forall|j: int| 0 <= j < i ==> !occurs_at(hay@, pat@, j),
        decreases last + 1 - i,
    {
        if matches_at(hay, pat, i) {
            proof {
                lemma_find_some(hay@, pat@, i as int);
            }
            return Some(i);
        }
        i += 1;
    }
    proof {
        lemma_find_none(hay@, pat@);
    }
    None
}

/// The decimal digits of `n`, most significant first.
pub open spec fn decimal(n: nat) -> Seq<char>
    decreases n,
{
    if n < 10 {
        seq![digit(n)]
    } else {
        decimal(n / 10).push(digit(n % 10))
    }
}

/// The character that writes the digit `d`, in bases up to sixteen.
pub open spec fn digit(d: nat) -> char {
    if d < 10 {
        ('0' as nat + d) as char
    } else {
        ('a' as nat + d - 10) as char
    }
}

/// The lower-case hexadecimal digits of `n`, most significant first.
pub open spec fn hexadecimal(n: nat) -> Seq<char>
    decreases n,
{
    if n < 16 {
        seq![digit(n)]
    } else {
        hexadecimal(n / 16).push(digit(n % 16))
    }
}

/// The character for one digit.
pub(crate) fn digit_char(d: u8) -> (c: char)
    requires
        d < 16,
    ensures
        c == digit(d as nat),
{
    if d < 10 {
        (48u8 + d) as char
    } else {
        (87u8 + d) as char
    }
}

/// Appends the decimal digits of `n` to `out`.
pub(crate) fn push_decimal(out: &mut String, n: usize)
    ensures
        final(out)@ == old(out)@ + decimal(n as nat),
    decreases n,
{
    if n >= 10 {
        push_decimal(out, n / 10);
    }
    out.push(digit_char((n % 10) as u8));
}

/// Appends the lower-case hexadecimal digits of `n` to `out`.
pub(crate) fn push_hexadecimal(out: &mut String, n: u32)
    ensures
        final(out)@ == old(out)@ + hexadecimal(n as nat),
    decreases n,
{
    if n >= 16 {
        push_hexadecimal(out, n / 16);
    }
    out.push(digit_char((n % 16) as u8));
}

} // verus!
