//! The two patterns that a list of needles is matched by.
use vstd::prelude::*;
use crate::input::SEPARATOR;
use crate::text::{hexadecimal, push_hexadecimal, views};

verus! {

/// A character that stands for itself in a pattern: an ASCII letter or digit,
/// the underscore, or the path separator.
pub open spec fn is_plain(c: char) -> bool {
    ('0' <= c <= '9') || ('A' <= c <= 'Z') || ('a' <= c <= 'z') || c == '_' || c == SEPARATOR
}

/// How one character is written in a pattern: a plain one as it is, the
/// backslash doubled, any other as its code point in hexadecimal, `\x{..}`.
pub open spec fn escaped_char(c: char) -> Seq<char> {
    if is_plain(c) {
        seq![c]
    } else if c == '\\' {
        seq!['\\', '\\']
    } else {
        seq!['\\', 'x', '{'] + hexadecimal(c as nat) + seq!['}']
    }
}

/// How a needle is written in a pattern: character by character.
pub open spec fn escaped(s: Seq<char>) -> Seq<char>
    decreases s.len(),
{
    if s.len() == 0 {
        Seq::<char>::empty()
    } else {
        escaped(s.drop_last()) + escaped_char(s.last())
    }
}

/// Whether every character of `s` is an ASCII character.
pub open spec fn is_ascii_text(s: Seq<char>) -> bool {
    forall|i: int| 0 <= i < s.len() ==> (#[trigger] s[i]) as nat <= 127
}

/// The hexadecimal digits of a number are ASCII characters.
proof fn lemma_hexadecimal_is_ascii(n: nat)
    ensures
        is_ascii_text(hexadecimal(n)),
    decreases n,
{
    if n >= 16 {
        lemma_hexadecimal_is_ascii(n / 16);
    }
}

/// The escaped form of a needle holds ASCII characters only, whatever the
/// needle holds: a character outside ASCII is written as its code point.
pub proof fn lemma_escaped_is_ascii(s: Seq<char>)
    ensures
        is_ascii_text(escaped(s)),
    decreases s.len(),
{
    if s.len() > 0 {
        lemma_escaped_is_ascii(s.drop_last());
        lemma_hexadecimal_is_ascii(s.last() as nat);
    }
}

/// `.*`: any characters.
pub open spec fn any_chars() -> Seq<char> {
    seq!['.', '*']
}

/// `[^/]*`: any characters but the separator.
pub open spec fn no_separator() -> Seq<char> {
    seq!['[', '^', SEPARATOR, ']', '*']
}

/// What stands between two needles that match consecutive components: the
/// rest of one component, a separator, and the start of the next.
pub open spec fn gap() -> Seq<char> {
    no_separator() + seq![SEPARATOR] + no_separator()
}

/// The pattern for the needles in order, anywhere in the path:
/// `.*` before, between and after them.
pub open spec fn anywhere_pattern(needles: Seq<Seq<char>>) -> Seq<char>
    decreases needles.len(),
{
    if needles.len() == 0 {
        any_chars()
    } else {
        anywhere_pattern(needles.drop_last()) + escaped(needles.last()) + any_chars()
    }
}

/// The needles in order, each two a `gap` apart.
pub open spec fn consecutive_needles(needles: Seq<Seq<char>>) -> Seq<char>
    decreases needles.len(),
{
    if needles.len() == 0 {
        Seq::<char>::empty()
    } else if needles.len() == 1 {
        escaped(needles[0])
    } else {
        consecutive_needles(needles.drop_last()) + gap() + escaped(needles.last())
    }
}

/// The pattern for the needles in consecutive components at the end of the
/// path: after the last needle only the rest of its component may follow.
pub open spec fn consecutive_pattern(needles: Seq<Seq<char>>) -> Seq<char> {
    consecutive_needles(needles) + no_separator() + seq!['$']
}

/// Appends `c` to `out` as it is written in a pattern.
fn push_escaped_char(out: &mut String, c: char)
    ensures
        final(out)@ == old(out)@ + escaped_char(c),
{
    if ('0' <= c && c <= '9') || ('A' <= c && c <= 'Z') || ('a' <= c && c <= 'z') || c == '_' || c
        == SEPARATOR {
        out.push(c);
    } else if c == '\\' {
        out.push('\\');
        out.push('\\');
    } else {
        out.push('\\');
        out.push('x');
        out.push('{');
        push_hexadecimal(out, c as u32);
        out.push('}');
    }
}

/// Appends `s` to `out` as it is written in a pattern.
fn push_escaped(out: &mut String, s: &str)
    ensures
        final(out)@ == old(out)@ + escaped(s@),
{
    let ghost before = out@;
    let ghost mut done: Seq<char> = Seq::empty();
    for c in it: s.chars()
        invariant
            done == it.seq().take(it.index() as int),
            out@ == before + escaped(done),
    {
        proof {
            assert(done.push(c).drop_last() =~= done);
            done = done.push(c);
        }
        push_escaped_char(out, c);
    }
    assert(done =~= s@);
}

/// Escapes a needle for use in a pattern. The separator passes as it is.
pub fn re_escape(s: &str) -> (r: String)
    ensures
        r@ == escaped(s@),
{
    let mut r = String::new();
    push_escaped(&mut r, s);
    r
}

/// The pattern that matches the needles, in order, anywhere in a path.
pub fn re_match_anywhere(needles: &[&str]) -> (r: String)
    ensures
        r@ == anywhere_pattern(views(needles@)),
{
    proof {
        reveal_strlit(".*");
    }
    let ghost model = views(needles@);
    let mut r = String::new();
    r.append(".*");
    let mut i: usize = 0;
    while i < needles.len()
        invariant
            i <= needles.len(),
            model == views(needles@),
            ".*"@ == any_chars(),
            r@ == anywhere_pattern(model.take(i as int)),
        decreases needles.len() - i,
    {
        assert(model.take(i + 1).drop_last() =~= model.take(i as int));
        push_escaped(&mut r, needles[i]);
        r.append(".*");
        i += 1;
    }
    assert(model.take(i as int) =~= model);
    r
}

/// The pattern that matches the needles, in order, in consecutive components
/// at the end of a path.
pub fn re_match_consecutive(needles: &[&str]) -> (r: String)
    ensures
        r@ == consecutive_pattern(views(needles@)),
{
    proof {
        reveal_strlit("[^/]*");
        reveal_strlit("/");
        reveal_strlit("$");
    }
    let ghost model = views(needles@);
    let mut r = String::new();
    let mut i: usize = 0;
    while i < needles.len()
        invariant
            i <= needles.len(),
            model == views(needles@),
            "[^/]*"@ == no_separator(),
            "/"@ == seq![SEPARATOR],
            r@ == consecutive_needles(model.take(i as int)),
        decreases needles.len() - i,
    {
        assert(model.take(i + 1).drop_last() =~= model.take(i as int));
        if i > 0 {
            r.append("[^/]*");
            r.append("/");
            r.append("[^/]*");
        }
        push_escaped(&mut r, needles[i]);
        i += 1;
    }
    assert(model.take(i as int) =~= model);
    r.append("[^/]*");
    r.append("$");
    r
}

/// A compiled expression of the `regex` crate. Nothing inside it is visible
/// here.
#[verifier::external_type_specification]
#[verifier::external_body]
pub struct ExRegex(regex::Regex);

/// The reason why the `regex` crate refused a pattern.
#[verifier::external_type_specification]
#[verifier::external_body]
pub struct ExRegexError(regex::Error);

/// Whether `Regex::new` accepts `pattern` on a machine whose words are
/// `word_bits` wide. A pattern is refused for a mistake in its syntax, or
/// where the compiled expression would take more room than the limit that the
/// `regex` crate sets itself; that room is counted in bytes, and a state of
/// the expression takes more of them where words are wider. Nothing else
/// counts.
pub uninterp spec fn regex_accepts(pattern: Seq<char>, word_bits: nat) -> bool;

/// Whether `Regex::new` accepts `pattern` on this machine.
pub open spec fn accepted(pattern: Seq<char>) -> bool {
    regex_accepts(pattern, usize::BITS as nat)
}

/// Whether the expression that `Regex::new` makes of `pattern` matches
/// somewhere in `text`, as `Regex::is_match` decides it.
pub uninterp spec fn regex_is_match(pattern: Seq<char>, text: Seq<char>) -> bool;

/// A compiled pattern, together with the text that it was compiled from.
///
/// A pattern is made in one place only, where `Regex::new` is called: text
/// and expression leave that call together, and nothing else in the crate
/// gets hold of an expression to pair with a text of its choice.
pub struct Pattern {
    source: String,
    compiled: regex::Regex,
}

impl View for Pattern {
    type V = Seq<char>;

    /// The text that the pattern was compiled from. The expression is what
    /// `Regex::new` made of it.
    closed spec fn view(&self) -> Seq<char> {
        self.source@
    }
}

/// `Regex::new`: compiles `pattern` and keeps the text with the expression.
/// Whether the pattern is accepted depends on the pattern and on the width
/// of the machine's words alone. What comes back on success was compiled from
/// `pattern` and no other text; on failure the crate's own error comes back.
#[verifier::external_body]
fn compile(pattern: &str) -> (r: Result<Pattern, regex::Error>)
    ensures
        r is Ok <==> regex_accepts(pattern@, usize::BITS as nat),
        r matches Ok(compiled) ==> compiled@ == pattern@,
{
    match regex::Regex::new(pattern) {
        Ok(compiled) => Ok(Pattern { source: String::from(pattern), compiled }),
        Err(e) => Err(e),
    }
}

/// `Regex::is_match`: whether the compiled expression matches somewhere in
/// `text`. The answer depends on the text of the pattern and on `text` alone,
/// since the expression was made of that text by `Regex::new`.
#[verifier::external_body]
fn is_match(pattern: &Pattern, text: &str) -> (b: bool)
    ensures
        b == regex_is_match(pattern@, text@),
{
    pattern.compiled.is_match(text)
}

impl Pattern {
    /// Compiles `source`. It succeeds exactly where the `regex` crate
    /// accepts `source`, and the pattern that comes back was compiled from
    /// exactly `source`.
    pub fn new(source: &str) -> (r: Result<Pattern, regex::Error>)
        ensures
            r is Ok <==> accepted(source@),
            r matches Ok(pattern) ==> pattern@ == source@,
    {
        compile(source)
    }

    /// The text that the pattern was compiled from.
    pub fn as_str(&self) -> (s: &str)
        ensures
            s@ == self@,
    {
        self.source.as_str()
    }

    /// Whether the pattern matches somewhere in `text`.
    pub fn is_match(&self, text: &str) -> (b: bool)
        ensures
            b == regex_is_match(self@, text@),
    {
        is_match(self, text)
    }
}

/// A pattern with its flags in front: Unicode matching always, and case
/// folding where the case is to be ignored.
pub open spec fn flagged(pattern: Seq<char>, ignore_case: bool) -> Seq<char> {
    if ignore_case {
        seq!['(', '?', 'i', 'u', ')'] + pattern
    } else {
        seq!['(', '?', 'u', ')'] + pattern
    }
}

/// Compiles `pattern` with its flags in front. It succeeds exactly where
/// the `regex` crate accepts the flagged pattern, and the pattern that comes
/// back was compiled from exactly that text.
pub fn prepare_regex(pattern: &str, ignore_case: bool) -> (r: Result<Pattern, regex::Error>)
    ensures
        r is Ok <==> accepted(flagged(pattern@, ignore_case)),
        r matches Ok(re) ==> re@ == flagged(pattern@, ignore_case),
{
    proof {
        reveal_strlit("(?iu)");
        reveal_strlit("(?u)");
    }
    let mut re = String::new();
    if ignore_case {
        re.append("(?iu)");
    } else {
        re.append("(?u)");
    }
    re.append(pattern);
    assert(re@ =~= flagged(pattern@, ignore_case));
    Pattern::new(re.as_str())
}

} // verus!
