//! Paths as text: their components, when two of them name the same place,
//! and the name of the file or directory that one leads to.
use vstd::prelude::*;
use crate::input::SEPARATOR;
use crate::text::{from_chars, str_eq, string_views, to_chars};

verus! {

/// The text behind the last separator of `p`; all of `p` where it holds none.
pub open spec fn last_segment(p: Seq<char>) -> Seq<char>
    decreases p.len(),
{
    if p.len() == 0 || p.last() == SEPARATOR {
        Seq::<char>::empty()
    } else {
        last_segment(p.drop_last()).push(p.last())
    }
}

/// A segment that names no component: the empty one, which a doubled or a
/// trailing separator leaves, and `.`, the directory itself.
pub open spec fn is_skipped(segment: Seq<char>) -> bool {
    segment.len() == 0 || segment == seq!['.']
}

/// `..`: the directory above.
pub open spec fn parent_dir() -> Seq<char> {
    seq!['.', '.']
}

/// The name of the file or directory that `p` leads to: its last component,
/// where segments that name none are passed over. There is none where the
/// path ends in `..` or has no component at all.
pub open spec fn file_name_of(p: Seq<char>) -> Option<Seq<char>>
    decreases p.len(),
{
    let segment = last_segment(p);
    if is_skipped(segment) {
        if segment.len() >= p.len() {
            None
        } else {
            file_name_of(p.subrange(0, p.len() - segment.len() - 1))
        }
    } else if segment == parent_dir() {
        None
    } else {
        Some(segment)
    }
}

/// Where no separator stands in `p` from `start` on, and one stands just
/// before `start` or `start` is 0, the last segment of `p` begins at `start`.
proof fn lemma_last_segment(p: Seq<char>, start: int)
    requires
        0 <= start <= p.len(),
        forall|k: int| start <= k < p.len() ==> p[k] != SEPARATOR,
        start == 0 || p[start - 1] == SEPARATOR,
    ensures
        last_segment(p) == p.subrange(start, p.len() as int),
    decreases p.len() - start,
{
    if start < p.len() {
        lemma_last_segment(p.drop_last(), start);
    }
}

/// The name of the file or directory that `path` leads to.
pub fn file_name<'a>(path: &'a str) -> (r: Option<&'a str>)
    ensures
        r matches Some(name) ==> file_name_of(path@) == Some(name@),
        r is None ==> file_name_of(path@) is None,
{
    let chars = to_chars(path);
    let mut end: usize = chars.len();
    assert(chars@.subrange(0, end as int) =~= chars@);
    loop
        invariant
            end <= chars.len(),
            chars@ == path@,
            file_name_of(chars@) == file_name_of(chars@.subrange(0, end as int)),
        decreases end,
    {
        let ghost prefix = chars@.subrange(0, end as int);
        let mut start: usize = end;
        while start > 0 && chars[start - 1] != SEPARATOR
            invariant
                start <= end <= chars.len(),
                forall|k: int| start <= k < end ==> chars@[k] != SEPARATOR,
            decreases start,
        {
            start -= 1;
        }
        proof {
            lemma_last_segment(prefix, start as int);
            assert(prefix.subrange(start as int, end as int) =~= chars@.subrange(
                start as int,
                end as int,
            ));
        }
        let ghost segment = chars@.subrange(start as int, end as int);
        let len: usize = end - start;
        if len == 0 || (len == 1 && chars[start] == '.') {
            assert(is_skipped(segment)) by {
                if len == 1 {
                    assert(segment =~= seq!['.']);
                }
            }
            if start == 0 {
                return None;
            }
            assert(prefix.subrange(0, prefix.len() - segment.len() - 1) =~= chars@.subrange(
                0,
                start - 1,
            ));
            end = start - 1;
        } else {
            assert(!is_skipped(segment)) by {
                if segment == seq!['.'] {
                    assert(segment[0] == '.');
                }
            }
            if len == 2 && chars[start] == '.' && chars[start + 1] == '.' {
                assert(segment =~= parent_dir());
                return None;
            }
            return Some(path.substring_char(start, end));
        }
    }
}

/// The component that stands for the root: a separator at the start.
pub open spec fn root_dir() -> Seq<char> {
    seq![SEPARATOR]
}

/// The components of a path, in order.
///
/// A separator at the start gives the root. After it, each segment between
/// separators is a component, except that the empty segment and `.` are
/// passed over. A path that holds no separator is its own single component,
/// unless it is empty. So `.` counts only at the very start of a path.
pub open spec fn components_of(p: Seq<char>) -> Seq<Seq<char>>
    decreases p.len(),
{
    let segment = last_segment(p);
    if segment.len() >= p.len() {
        if segment.len() == 0 {
            Seq::<Seq<char>>::empty()
        } else {
            seq![segment]
        }
    } else {
        let before = p.subrange(0, p.len() - segment.len() - 1);
        let head = if before.len() == 0 {
            seq![root_dir()]
        } else {
            components_of(before)
        };
        if is_skipped(segment) {
            head
        } else {
            head.push(segment)
        }
    }
}

/// Two paths name the same place where their components are the same: a
/// doubled separator, a separator at the end and a `.` on the way make no
/// difference.
pub open spec fn path_eq(a: Seq<char>, b: Seq<char>) -> bool {
    components_of(a) == components_of(b)
}

/// Appends the components of `chars[..end]` to `out`.
fn push_components(chars: &Vec<char>, end: usize, out: &mut Vec<String>)
    requires
        end <= chars.len(),
    ensures
        string_views(final(out)@) == string_views(old(out)@) + components_of(
            chars@.subrange(0, end as int),
        ),
    decreases end,
{
    let ghost prefix = chars@.subrange(0, end as int);
    let mut start: usize = end;
    while start > 0 && chars[start - 1] != SEPARATOR
        invariant
            start <= end <= chars.len(),
            forall|k: int| start <= k < end ==> chars@[k] != SEPARATOR,
        decreases start,
    {
        start -= 1;
    }
    proof {
        lemma_last_segment(prefix, start as int);
        assert(prefix.subrange(start as int, end as int) =~= chars@.subrange(
            start as int,
            end as int,
        ));
    }
    let ghost segment = chars@.subrange(start as int, end as int);
    if start == 0 {
        if end > 0 {
            out.push(from_chars(chars, 0, end));
        }
    } else {
        let ghost before = prefix.subrange(0, prefix.len() - segment.len() - 1);
        assert(before =~= chars@.subrange(0, start - 1));
        if start == 1 {
            proof {
                reveal_strlit("/");
            }
            assert("/"@ =~= root_dir());
            out.push(String::from_str("/"));
        } else {
            push_components(chars, start - 1, out);
        }
        let ghost head = out@;
        let len: usize = end - start;
        if len == 0 || (len == 1 && chars[start] == '.') {
            assert(is_skipped(segment)) by {
                if len == 1 {
                    assert(segment =~= seq!['.']);
                }
            }
        } else {
            assert(!is_skipped(segment)) by {
                if segment == seq!['.'] {
                    assert(segment[0] == '.');
                }
            }
            out.push(from_chars(chars, start, end));
            assert(string_views(out@) =~= string_views(head).push(segment));
        }
    }
}

/// The components of `path`, in order; the root comes as one separator.
pub fn components(path: &str) -> (r: Vec<String>)
    ensures
        string_views(r@) == components_of(path@),
{
    let chars = to_chars(path);
    let mut r: Vec<String> = Vec::new();
    assert(chars@.subrange(0, chars.len() as int) =~= path@);
    push_components(&chars, chars.len(), &mut r);
    r
}

/// Whether `a` and `b` name the same place.
pub fn same_path(a: &str, b: &str) -> (r: bool)
    ensures
        r == path_eq(a@, b@),
{
    if str_eq(a, b) {
        return true;
    }
    let left = components(a);
    let right = components(b);
    if left.len() != right.len() {
        assert(string_views(left@).len() != string_views(right@).len());
        return false;
    }
    let mut i: usize = 0;
    while i < left.len()
        invariant
            i <= left.len(),
            left.len() == right.len(),
            string_views(left@) == components_of(a@),
            string_views(right@) == components_of(b@),
            forall|k: int| 0 <= k < i ==> left[k]@ == right[k]@,
        decreases left.len() - i,
    {
        if !str_eq(left[i].as_str(), right[i].as_str()) {
            assert(string_views(left@)[i as int] != string_views(right@)[i as int]);
            return false;
        }
        i += 1;
    }
    assert(string_views(left@) =~= string_views(right@));
    true
}

} // verus!
