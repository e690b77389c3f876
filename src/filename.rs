use vstd::prelude::*;
use vstd::string::*;

use crate::search::chars_of;

verus! {

/// What `char::is_whitespace` says of `c`.
pub uninterp spec fn white_space(c: char) -> bool;

/// Relies on `char::is_whitespace`: whether `c` has the Unicode White_Space property.
#[verifier::external_body]
fn is_white_space(c: char) -> (r: bool)
    ensures
        r == white_space(c),
{
    c.is_whitespace()
}

/// A character that file systems reserve.
pub open spec fn is_reserved(c: char) -> bool {
    c == '/' || c == '\\' || c == ':' || c == '*' || c == '?' || c == '"' || c == '<' || c
        == '>' || c == '|'
}

pub open spec fn replace_char(c: char) -> char {
    if is_reserved(c) {
        '_'
    } else {
        c
    }
}

/// `s` with each reserved character replaced by `_`.
pub open spec fn replace_reserved(s: Seq<char>) -> Seq<char> {
    s.map_values(|c: char| replace_char(c))
}

/// The first index at or after `i` whose character is not white space, or the length.
pub open spec fn leading_end(s: Seq<char>, i: nat) -> nat
    decreases s.len() - i,
{
    if i >= s.len() {
        s.len()
    } else if !white_space(s[i as int]) {
        i
    } else {
        leading_end(s, i + 1)
    }
}

/// The end of `s` up to `j` once trailing white space is dropped.
pub open spec fn trailing_start(s: Seq<char>, j: nat) -> nat
    decreases j,
{
    if j == 0 || j > s.len() {
        0
    } else if !white_space(s[j - 1]) {
        j
    } else {
        trailing_start(s, (j - 1) as nat)
    }
}

/// `s` without leading and trailing white space.
pub open spec fn trim_ws(s: Seq<char>) -> Seq<char> {
    let a = leading_end(s, 0);
    let e = trailing_start(s, s.len());
    if e <= a {
        Seq::empty()
    } else {
        s.subrange(a as int, e as int)
    }
}

/// A file name with reserved characters replaced by `_`, trimmed of white space.
pub open spec fn sanitized(name: Seq<char>) -> Seq<char> {
    trim_ws(replace_reserved(name))
}

proof fn lemma_leading_end(s: Seq<char>, i: nat)
    requires
        i <= s.len(),
    ensures
        i <= leading_end(s, i) <= s.len(),
        leading_end(s, i) < s.len() ==> !white_space(s[leading_end(s, i) as int]),
        forall|k: int| i <= k < leading_end(s, i) ==> white_space(s[k]),
    decreases s.len() - i,
{
    if i < s.len() && white_space(s[i as int]) {
        lemma_leading_end(s, i + 1);
    }
}

proof fn lemma_trailing_start(s: Seq<char>, j: nat)
    requires
        j <= s.len(),
    ensures
        trailing_start(s, j) <= j,
        trailing_start(s, j) > 0 ==> !white_space(s[trailing_start(s, j) - 1]),
        forall|k: int| trailing_start(s, j) <= k < j ==> white_space(s[k]),
    decreases j,
{
    if j > 0 && white_space(s[j - 1]) {
        lemma_trailing_start(s, (j - 1) as nat);
    }
}

/// A text that neither starts nor ends with white space is its own trim.
proof fn lemma_trim_fixed(t: Seq<char>)
    requires
        t.len() > 0 ==> !white_space(t[0]) && !white_space(t.last()),
    ensures
        trim_ws(t) == t,
{
    if t.len() == 0 {
        assert(trim_ws(t) =~= t);
    } else {
        assert(leading_end(t, 0) == 0);
        assert(trailing_start(t, t.len()) == t.len());
        assert(t.subrange(0, t.len() as int) =~= t);
    }
}

/// Sanitizing a file name a second time changes nothing.
pub proof fn lemma_sanitize_idempotent(name: Seq<char>)
    ensures
        sanitized(sanitized(name)) == sanitized(name),
{
    let r = replace_reserved(name);
    let t = sanitized(name);
    lemma_leading_end(r, 0);
    lemma_trailing_start(r, r.len());
    assert forall|k: int| 0 <= k < t.len() implies !is_reserved(t[k]) by {
        assert(t[k] == r[leading_end(r, 0) + k]);
    }
    assert(replace_reserved(t) =~= t);
    if t.len() > 0 {
        assert(t[0] == r[leading_end(r, 0) as int]);
        assert(t.last() == r[trailing_start(r, r.len()) - 1]);
    }
    lemma_trim_fixed(t);
}

/// `name` with each of `/ \ : * ? " < > |` replaced by `_`.
pub fn replace_reserved_chars(name: &str) -> (r: String)
    ensures
        r@ == replace_reserved(name@),
{
    let n = name.unicode_len();
    let mut out = String::new();
    let mut i: usize = 0;
    while i < n
        invariant
            n == name@.len(),
            i <= n,
            out@ == replace_reserved(name@.subrange(0, i as int)),
        decreases n - i,
    {
        let c = name.get_char(i);
        let ghost prev = out@;
        assert(name@.subrange(i as int, i + 1) =~= seq![c]);
        proof { reveal_strlit("_"); }
        assert("_"@ =~= seq!['_']);
        if c == '/' || c == '\\' || c == ':' || c == '*' || c == '?' || c == '"' || c == '<' || c
            == '>' || c == '|' {
            out.append("_");
        } else {
            out.append(name.substring_char(i, i + 1));
        }
        assert(out@ == prev + seq![replace_char(c)]);
        i = i + 1;
        assert(out@ =~= replace_reserved(name@.subrange(0, i as int)));
    }
    assert(name@.subrange(0, n as int) =~= name@);
    out
}

/// `text` without leading and trailing white space.
pub fn trim_white_space(text: &str) -> (r: String)
    ensures
        r@ == trim_ws(text@),
{
    let s = chars_of(text);
    let n = s.len();
    let mut a: usize = 0;
    while a < n && is_white_space(s[a])
        invariant
            n == s@.len(),
            a <= n,
            leading_end(s@, 0) == leading_end(s@, a as nat),
        decreases n - a,
    {
        a = a + 1;
    }
    let mut e: usize = n;
    while e > 0 && is_white_space(s[e - 1])
        invariant
            n == s@.len(),
            e <= n,
            trailing_start(s@, n as nat) == trailing_start(s@, e as nat),
        decreases e,
    {
        e = e - 1;
    }
    if e <= a {
        String::new()
    } else {
        String::from_str(text.substring_char(a, e))
    }
}

/// A file name with `/ \ : * ? " < > |` replaced by `_` and surrounding white
/// space removed.
pub fn sanitize_filename(name: &str) -> (r: String)
    ensures
        r@ == sanitized(name@),
{
    let replaced = replace_reserved_chars(name);
    trim_white_space(replaced.as_str())
}

} // verus!
