//! The tab-entry token: `needle`, `needle__index` or `needle__index__path`.
//!
//! A completion menu is offered to the shell as a list of such tokens; the
//! shell hands the chosen one back as a query, and decoding it tells which
//! candidate was meant.
use vstd::prelude::*;
use crate::text::{
    decimal, digit, find, find_first, lemma_find_is_first, lemma_find_some, occurs_at, push_decimal,
    to_chars,
};

verus! {

/// What one query token decodes to.
#[derive(PartialEq, Eq, Debug)]
pub struct TabEntryInfo<'a> {
    pub needle: Option<&'a str>,
    pub index: Option<usize>,
    pub index_explicit: bool,
    pub path: Option<&'a str>,
}

/// A decoded token as plain values.
pub struct TabEntryModel {
    pub needle: Option<Seq<char>>,
    pub index: Option<nat>,
    pub index_explicit: bool,
    pub path: Option<Seq<char>>,
}

impl<'a> View for TabEntryInfo<'a> {
    type V = TabEntryModel;

    open spec fn view(&self) -> TabEntryModel {
        TabEntryModel {
            needle: match self.needle {
                Some(s) => Some(s@),
                None => None,
            },
            index: match self.index {
                Some(i) => Some(i as nat),
                None => None,
            },
            index_explicit: self.index_explicit,
            path: match self.path {
                Some(s) => Some(s@),
                None => None,
            },
        }
    }
}

/// The two-character marker between the fields of a token.
pub open spec fn marker() -> Seq<char> {
    seq!['_', '_']
}

/// The index that an index field stands for: its first character, where that
/// is an ASCII digit. Whatever follows the digit is not looked at.
pub open spec fn index_of_field(field: Seq<char>) -> Option<nat> {
    if field.len() > 0 && '0' <= field[0] <= '9' {
        Some((field[0] as int - '0' as int) as nat)
    } else {
        None
    }
}

/// The token with no field present.
pub open spec fn plain_needle() -> TabEntryModel {
    TabEntryModel { needle: None, index: None, index_explicit: false, path: None }
}

/// What `entry` decodes to when `sep` separates its fields.
///
/// Without a separator nothing is present. The text before the first separator
/// is the needle. Where a second separator follows, the text between the two is
/// the index field and the text after the second is the path. Where none
/// follows, the rest is the index field, and an empty rest stands for the index
/// 1, not explicitly given.
pub open spec fn decode(entry: Seq<char>, sep: Seq<char>) -> TabEntryModel {
    match find(entry, sep) {
        None => plain_needle(),
        Some(i) => {
            let needle = entry.subrange(0, i);
            let rest = entry.subrange(i + sep.len(), entry.len() as int);
            match find(rest, sep) {
                Some(j) => {
                    let index = index_of_field(rest.subrange(0, j));
                    TabEntryModel {
                        needle: Some(needle),
                        index,
                        index_explicit: index is Some,
                        path: Some(rest.subrange(j + sep.len(), rest.len() as int)),
                    }
                },
                None => if rest.len() == 0 {
                    TabEntryModel {
                        needle: Some(needle),
                        index: Some(1),
                        index_explicit: false,
                        path: None,
                    }
                } else {
                    let index = index_of_field(rest);
                    TabEntryModel {
                        needle: Some(needle),
                        index,
                        index_explicit: index is Some,
                        path: None,
                    }
                },
            }
        },
    }
}

/// The text of a token: the fields that are present, each of the last two
/// behind a separator.
pub open spec fn encode(t: TabEntryModel, sep: Seq<char>) -> Seq<char> {
    let needle = match t.needle {
        Some(n) => n,
        None => Seq::<char>::empty(),
    };
    let index = match t.index {
        Some(i) => sep + decimal(i),
        None => Seq::<char>::empty(),
    };
    let path = match t.path {
        Some(p) => sep + p,
        None => Seq::<char>::empty(),
    };
    needle + index + path
}

/// The menu entry for the candidate `path` at the 1-based position `index`.
pub open spec fn menu_entry(needle: Seq<char>, index: nat, path: Seq<char>) -> TabEntryModel {
    TabEntryModel { needle: Some(needle), index: Some(index), index_explicit: true, path: Some(path) }
}

/// A marker that is the first in `needle + marker` is still the first when
/// more text follows.
proof fn lemma_first_marker_with_tail(needle: Seq<char>, tail: Seq<char>)
    requires
        find(needle + marker(), marker()) == Some(needle.len() as int),
    ensures
        find(needle + marker() + tail, marker()) == Some(needle.len() as int),
{
    let sep = marker();
    let n = needle.len() as int;
    let token = needle + sep + tail;
    lemma_find_is_first(needle + sep, sep);
    assert(token.subrange(n, n + 2) =~= sep);
    assert forall|j: int| 0 <= j < n implies !occurs_at(token, sep, j) by {
        assert(!occurs_at(needle + sep, sep, j));
        assert(token.subrange(j, j + 2) =~= (needle + sep).subrange(j, j + 2));
    }
    lemma_find_some(token, sep, n);
}

/// Behind a single character other than `_`, the first marker stands at 1.
proof fn lemma_marker_after_digit(d: char, path: Seq<char>)
    requires
        d != '_',
    ensures
        find(seq![d] + marker() + path, marker()) == Some(1int),
{
    let sep = marker();
    let rest = seq![d] + sep + path;
    assert(rest.subrange(1, 3) =~= sep);
    lemma_find_some(rest, sep, 1);
}

/// Decoding the text of a menu entry gives the entry back: its needle, its
/// index, given explicitly, and its path.
///
/// This holds where the index is a single digit, since only the first digit of
/// an index field is read, and where the marker that follows the needle is the
/// first in the token, that is, where the needle neither holds the marker nor
/// ends in a character that forms one with what follows.
pub proof fn lemma_menu_entry_round_trip(needle: Seq<char>, index: nat, path: Seq<char>)
    requires
        index <= 9,
        find(needle + marker(), marker()) == Some(needle.len() as int),
    ensures
        decode(encode(menu_entry(needle, index, path), marker()), marker()) == menu_entry(
            needle,
            index,
            path,
        ),
{
    let sep = marker();
    let n = needle.len() as int;
    let d = digit(index);
    let tail = seq![d] + sep + path;
    let token = encode(menu_entry(needle, index, path), sep);
    assert(token =~= needle + sep + tail);
    lemma_first_marker_with_tail(needle, tail);
    lemma_marker_after_digit(d, path);
    assert(token.subrange(0, n) =~= needle);
    assert(token.subrange(n + 2, token.len() as int) =~= tail);
    assert(tail.subrange(3, tail.len() as int) =~= path);
}

/// Each entry of the completion menu for `candidates` under `needle` decodes
/// to the needle, the candidate's 1-based position and the candidate itself,
/// as long as the menu has at most nine entries.
pub proof fn lemma_menu_round_trip(needle: Seq<char>, candidates: Seq<Seq<char>>, i: int)
    requires
        0 <= i < candidates.len() <= 9,
        find(needle + marker(), marker()) == Some(needle.len() as int),
    ensures
        decode(encode(menu_entry(needle, (i + 1) as nat, candidates[i]), marker()), marker())
            == (TabEntryModel {
            needle: Some(needle),
            index: Some((i + 1) as nat),
            index_explicit: true,
            path: Some(candidates[i]),
        }),
{
    lemma_menu_entry_round_trip(needle, (i + 1) as nat, candidates[i]);
}

/// Reads the index out of an index field.
fn parse_index(field: &str) -> (r: Option<usize>)
    ensures
        r matches Some(i) ==> index_of_field(field@) == Some(i as nat),
        r is None ==> index_of_field(field@) is None,
{
    if field.unicode_len() == 0 {
        return None;
    }
    let ch = field.get_char(0);
    if '0' <= ch && ch <= '9' {
        Some((ch as u32 - '0' as u32) as usize)
    } else {
        None
    }
}

impl<'a> TabEntryInfo<'a> {
    /// The menu entry for the candidate `path` at the 1-based position `index`.
    pub fn new(needle: &'a str, index: usize, path: &'a str) -> (r: TabEntryInfo<'a>)
        ensures
            r@ == menu_entry(needle@, index as nat, path@),
    {
        TabEntryInfo { needle: Some(needle), index: Some(index), index_explicit: true, path: Some(path) }
    }

    /// The completion menu for `matches` under `needle`: one entry for each
    /// candidate, in order, numbered from 1.
    pub fn from_matches(needle: &'a str, matches: &'a [&'a str]) -> (r: Vec<TabEntryInfo<'a>>)
        ensures
            r.len() == matches.len(),
            forall|i: int|
                0 <= i < matches.len() ==> (#[trigger] r[i])@ == menu_entry(
                    needle@,
                    (i + 1) as nat,
                    matches[i]@,
                ),
    {
        let mut r: Vec<TabEntryInfo<'a>> = Vec::new();
        let mut i: usize = 0;
        while i < matches.len()
            invariant
                i <= matches.len(),
                r.len() == i,
                forall|k: int|
                    0 <= k < i ==> (#[trigger] r[k])@ == menu_entry(
                        needle@,
                        (k + 1) as nat,
                        matches[k]@,
                    ),
            decreases matches.len() - i,
        {
            r.push(TabEntryInfo::new(needle, i + 1, matches[i]));
            i += 1;
        }
        r
    }

    /// The token as the shell sees it.
    pub fn to_line(&self) -> (s: String)
        ensures
            s@ == encode(self@, marker()),
    {
        proof {
            reveal_strlit("__");
        }
        let mut s = String::new();
        if let Some(needle) = self.needle {
            s.append(needle);
        }
        if let Some(index) = self.index {
            s.append("__");
            push_decimal(&mut s, index);
        }
        if let Some(path) = self.path {
            s.append("__");
            s.append(path);
        }
        s
    }
}

/// Decodes a token of the form `needle__index__path`.
pub fn get_tab_entry_info<'a>(entry: &'a str) -> (r: TabEntryInfo<'a>)
    ensures
        r@ == decode(entry@, marker()),
{
    proof {
        reveal_strlit("__");
    }
    assert("__"@ =~= marker());
    get_tab_entry_info_internal(entry, "__")
}

/// Decodes a token whose fields `separator` keeps apart.
pub fn get_tab_entry_info_internal<'a>(entry: &'a str, separator: &str) -> (r: TabEntryInfo<'a>)
    ensures
        r@ == decode(entry@, separator@),
{
    let chars = to_chars(entry);
    let sep = to_chars(separator);
    match find_first(&chars, &sep) {
        None => TabEntryInfo { needle: None, index: None, index_explicit: false, path: None },
        Some(i) => {
            let n: usize = sep.len();
            let total: usize = chars.len();
            let start: usize = i + n;
            let needle = entry.substring_char(0, i);
            let remaining = entry.substring_char(start, total);
            let rest = to_chars(remaining);
            match find_first(&rest, &sep) {
                Some(j) => {
                    let index = parse_index(remaining.substring_char(0, j));
                    let path = remaining.substring_char(j + sep.len(), rest.len());
                    TabEntryInfo {
                        needle: Some(needle),
                        index,
                        index_explicit: index.is_some(),
                        path: Some(path),
                    }
                },
                None => {
                    if rest.len() == 0 {
                        TabEntryInfo {
                            needle: Some(needle),
                            index: Some(1),
                            index_explicit: false,
                            path: None,
                        }
                    } else {
                        let index = parse_index(remaining);
                        TabEntryInfo {
                            needle: Some(needle),
                            index,
                            index_explicit: index.is_some(),
                            path: None,
                        }
                    }
                },
            }
        },
    }
}

} // verus!
