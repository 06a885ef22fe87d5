//! Tidying the needles that the shell hands over.
use vstd::prelude::*;
use crate::text::to_chars;

verus! {

/// The character that separates the components of a path.
pub const SEPARATOR: char = '/';

/// `s` without the run of `c` at its end.
pub open spec fn trim_trailing(s: Seq<char>, c: char) -> Seq<char>
    decreases s.len(),
{
    if s.len() > 0 && s.last() == c {
        trim_trailing(s.drop_last(), c)
    } else {
        s
    }
}

/// A needle as the matcher wants it, where `separator` separates the
/// components of a path: without separators at its end, except that a needle
/// that is one separator and nothing else stays as it is.
pub open spec fn sanitized_with(needle: Seq<char>, separator: char) -> Seq<char> {
    if needle == seq![separator] {
        needle
    } else {
        trim_trailing(needle, separator)
    }
}

/// A needle as the matcher wants it.
pub open spec fn sanitized(needle: Seq<char>) -> Seq<char> {
    sanitized_with(needle, SEPARATOR)
}

/// Strips the separators at the end of one needle, where `separator`
/// separates the components of a path.
pub fn sanitize_one_needle_with<'a>(needle: &'a str, separator: char) -> (r: &'a str)
    ensures
        r@ == sanitized_with(needle@, separator),
{
    let chars = to_chars(needle);
    if chars.len() == 1 && chars[0] == separator {
        assert(needle@ =~= seq![separator]);
        return needle;
    }
    let mut end: usize = chars.len();
    assert(chars@.subrange(0, end as int) =~= chars@);
    while end > 0 && chars[end - 1] == separator
        invariant
            end <= chars.len(),
            trim_trailing(chars@, separator) == trim_trailing(
                chars@.subrange(0, end as int),
                separator,
            ),
        decreases end,
    {
        assert(chars@.subrange(0, end as int).drop_last() =~= chars@.subrange(0, end - 1));
        end -= 1;
    }
    needle.substring_char(0, end)
}

/// Strips the separators at the end of one needle.
pub fn sanitize_one_needle<'a>(needle: &'a str) -> (r: &'a str)
    ensures
        r@ == sanitized(needle@),
{
    sanitize_one_needle_with(needle, SEPARATOR)
}

/// Strips the separators at the end of each needle, where `separator`
/// separates the components of a path.
pub fn sanitize_with<'a>(needles: &'a [&'a str], separator: char) -> (r: Vec<&'a str>)
    ensures
        r.len() == needles.len(),
        forall|i: int|
            0 <= i < needles.len() ==> (#[trigger] r[i])@ == sanitized_with(needles[i]@, separator),
{
    let mut r: Vec<&'a str> = Vec::new();
    let mut i: usize = 0;
    while i < needles.len()
        invariant
            i <= needles.len(),
            r.len() == i,
            forall|k: int| 0 <= k < i ==> (#[trigger] r[k])@ == sanitized_with(needles[k]@, separator),
        decreases needles.len() - i,
    {
        r.push(sanitize_one_needle_with(needles[i], separator));
        i += 1;
    }
    r
}

/// Strips the separators at the end of each needle.
pub fn sanitize<'a>(needles: &'a [&'a str]) -> (r: Vec<&'a str>)
    ensures
        r.len() == needles.len(),
        forall|i: int| 0 <= i < needles.len() ==> (#[trigger] r[i])@ == sanitized(needles[i]@),
{
    sanitize_with(needles, SEPARATOR)
}

} // verus!
