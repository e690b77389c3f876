use vstd::prelude::*;
use vstd::string::*;

use crate::search::{chars_of, contains, contains_chars, find, first_index, lemma_find_from};

verus! {

/// What `str::to_lowercase` makes of a string.
pub uninterp spec fn lower_of(s: Seq<char>) -> Seq<char>;

/// Relies on `str::to_lowercase`: the result depends on the characters alone.
#[verifier::external_body]
fn lowercase(s: &str) -> (r: String)
    ensures
        r@ == lower_of(s@),
{
    s.to_lowercase()
}

/// A lower-cased URL mentions one of the video site's host names.
pub open spec fn names_video_host(lowered: Seq<char>) -> bool {
    contains(lowered, "youtube.com"@) || contains(lowered, "youtu.be"@)
}

/// Whether an already lower-cased URL mentions one of the video site's host names.
pub fn mentions_video_host(lowered: &str) -> (r: bool)
    ensures
        r == names_video_host(lowered@),
{
    let s = chars_of(lowered);
    contains_chars(&s, &chars_of("youtube.com")) || contains_chars(&s, &chars_of("youtu.be"))
}

/// Whether `url`, lower-cased, mentions one of the video site's host names.
pub fn validate_youtube_url(url: &str) -> (r: bool)
    ensures
        r == names_video_host(lower_of(url@)),
{
    let lowered = lowercase(url);
    mentions_video_host(lowered.as_str())
}

/// The number of URL patterns that carry a video identifier.
pub open spec fn pattern_count() -> nat {
    5
}

/// The `k`-th URL pattern, in the order in which they are tried.
pub open spec fn pattern(k: nat) -> Seq<char> {
    if k == 0 {
        "youtube.com/watch?v="@
    } else if k == 1 {
        "youtu.be/"@
    } else if k == 2 {
        "youtube.com/embed/"@
    } else if k == 3 {
        "youtube.com/shorts/"@
    } else {
        "youtube.com/v/"@
    }
}

/// Where the identifier starts, counted from the start of the `k`-th pattern's match.
pub open spec fn pattern_offset(k: nat) -> nat {
    if k == 0 {
        16
    } else if k == 1 {
        9
    } else if k == 2 {
        16
    } else if k == 3 {
        16
    } else {
        13
    }
}

/// A character that ends an identifier.
pub open spec fn is_delimiter(c: char) -> bool {
    c == '&' || c == '?' || c == '#'
}

/// The index of the first delimiter at or after `i`, or the length of `s`.
pub open spec fn delimiter_from(s: Seq<char>, i: nat) -> nat
    decreases s.len() - i,
{
    if i >= s.len() {
        s.len()
    } else if is_delimiter(s[i as int]) {
        i
    } else {
        delimiter_from(s, i + 1)
    }
}

/// The number of bytes that `c` takes in UTF-8.
pub open spec fn char_width(c: char) -> nat {
    if (c as u32) < 0x80 {
        1
    } else if (c as u32) < 0x800 {
        2
    } else if (c as u32) < 0x10000 {
        3
    } else {
        4
    }
}

/// The number of bytes that `s` takes in UTF-8.
pub open spec fn utf8_len(s: Seq<char>) -> nat
    decreases s.len(),
{
    if s.len() == 0 {
        0
    } else {
        utf8_len(s.drop_last()) + char_width(s.last())
    }
}

/// An identifier is accepted when it takes from 8 to 20 bytes.
pub open spec fn acceptable_id(id: Seq<char>) -> bool {
    8 <= utf8_len(id) <= 20
}

/// The identifier that the `k`-th pattern yields in `url`, if it is accepted.
pub open spec fn candidate(url: Seq<char>, k: nat) -> Option<Seq<char>> {
    match first_index(url, pattern(k)) {
        Some(p) => {
            let start = p + pattern_offset(k);
            let id = url.subrange(start as int, delimiter_from(url, start) as int);
            if acceptable_id(id) {
                Some(id)
            } else {
                None
            }
        },
        None => None,
    }
}

/// The first accepted identifier of the patterns from the `k`-th on.
pub open spec fn video_id_from(url: Seq<char>, k: nat) -> Option<Seq<char>>
    decreases pattern_count() - k,
{
    if k >= pattern_count() {
        None
    } else {
        match candidate(url, k) {
            Some(id) => Some(id),
            None => video_id_from(url, k + 1),
        }
    }
}

/// The video identifier of `url`, if any pattern yields an accepted one.
pub open spec fn video_id(url: Seq<char>) -> Option<Seq<char>> {
    video_id_from(url, 0)
}

/// A UTF-8 text takes at least one byte per character.
pub proof fn lemma_utf8_len_at_least_chars(s: Seq<char>)
    ensures
        utf8_len(s) >= s.len(),
    decreases s.len(),
{
    if s.len() > 0 {
        lemma_utf8_len_at_least_chars(s.drop_last());
    }
}

fn pattern_str(k: usize) -> (r: &'static str)
    requires
        k < pattern_count(),
    ensures
        r@ == pattern(k as nat),
        pattern_offset(k as nat) <= r@.len(),
{
    if k == 0 {
        proof { reveal_strlit("youtube.com/watch?v="); }
        "youtube.com/watch?v="
    } else if k == 1 {
        proof { reveal_strlit("youtu.be/"); }
        "youtu.be/"
    } else if k == 2 {
        proof { reveal_strlit("youtube.com/embed/"); }
        "youtube.com/embed/"
    } else if k == 3 {
        proof { reveal_strlit("youtube.com/shorts/"); }
        "youtube.com/shorts/"
    } else {
        proof { reveal_strlit("youtube.com/v/"); }
        "youtube.com/v/"
    }
}

fn pattern_offset_of(k: usize) -> (r: usize)
    requires
        k < pattern_count(),
    ensures
        r == pattern_offset(k as nat),
{
    if k == 0 {
        16
    } else if k == 1 {
        9
    } else if k == 2 {
        16
    } else if k == 3 {
        16
    } else {
        13
    }
}

fn width_of(c: char) -> (r: usize)
    ensures
        r == char_width(c),
{
    if (c as u32) < 0x80 {
        1
    } else if (c as u32) < 0x800 {
        2
    } else if (c as u32) < 0x10000 {
        3
    } else {
        4
    }
}

/// The index of the first delimiter in `s` at or after `start`, or the length of `s`.
fn delimiter_index(s: &Vec<char>, start: usize) -> (r: usize)
    requires
        start <= s@.len(),
    ensures
        r == delimiter_from(s@, start as nat),
        start <= r <= s@.len(),
{
    let n = s.len();
    let mut i = start;
    while i < n && !(s[i] == '&' || s[i] == '?' || s[i] == '#')
        invariant
            n == s@.len(),
            start <= i <= n,
            delimiter_from(s@, start as nat) == delimiter_from(s@, i as nat),
        decreases n - i,
    {
        i = i + 1;
    }
    i
}

/// Whether the characters of `s` from `start` to `end` form an accepted identifier.
fn accepted_between(s: &Vec<char>, start: usize, end: usize) -> (r: bool)
    requires
        start <= end <= s@.len(),
    ensures
        r == acceptable_id(s@.subrange(start as int, end as int)),
{
    let ghost id = s@.subrange(start as int, end as int);
    if end - start > 20 {
        proof { lemma_utf8_len_at_least_chars(id); }
        return false;
    }
    let mut bytes: usize = 0;
    let mut i: usize = start;
    while i < end
        invariant
            start <= i <= end <= s@.len(),
            end - start <= 20,
            bytes <= 4 * (i - start),
            bytes == utf8_len(s@.subrange(start as int, i as int)),
        decreases end - i,
    {
        bytes = bytes + width_of(s[i]);
        proof {
            assert(s@.subrange(start as int, i + 1).drop_last() =~= s@.subrange(
                start as int,
                i as int,
            ));
        }
        i = i + 1;
    }
    8 <= bytes && bytes <= 20
}

/// The video identifier of `url`: the text after the first pattern that yields an
/// identifier of 8 to 20 bytes, up to the next `&`, `?` or `#`.
pub fn extract_video_id(url: &str) -> (r: Option<String>)
    ensures
        match r {
            Some(id) => video_id(url@) == Some(id@),
            None => video_id(url@) is None,
        },
{
    let s = chars_of(url);
    let n = s.len();
    let mut k: usize = 0;
    while k < 5
        invariant
            n == s@.len(),
            s@ == url@,
            k <= pattern_count(),
            video_id(url@) == video_id_from(url@, k as nat),
        decreases 5 - k,
    {
        let pat = chars_of(pattern_str(k));
        proof { lemma_find_from(s@, pat@, 0); }
        match find(&s, &pat) {
            Some(p) => {
                let start = p + pattern_offset_of(k);
                let end = delimiter_index(&s, start);
                if accepted_between(&s, start, end) {
                    return Some(String::from_str(url.substring_char(start, end)));
                }
            },
            None => {},
        }
        k = k + 1;
    }
    None
}

} // verus!
