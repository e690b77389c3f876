use vstd::prelude::*;
use vstd::string::*;

use crate::search::{chars_of, find, first_index, lemma_find_from, matches_at, occurs_at};
use crate::text::{decimal, push_decimal};

verus! {

pub open spec fn is_digit(c: char) -> bool {
    '0' <= c && c <= '9'
}

pub open spec fn digit_value(c: char) -> nat {
    ((c as u32) - ('0' as u32)) as nat
}

/// The value of a string of decimal digits, most significant first.
pub open spec fn digits_value(s: Seq<char>) -> nat
    decreases s.len(),
{
    if s.len() == 0 {
        0
    } else {
        digits_value(s.drop_last()) * 10 + digit_value(s.last())
    }
}

/// `s` without one leading `+`.
pub open spec fn unsigned_digits(s: Seq<char>) -> Seq<char> {
    if s.len() > 0 && s[0] == '+' {
        s.drop_first()
    } else {
        s
    }
}

/// `s` read as a `u32`: an optional `+`, then one or more decimal digits whose
/// value fits.
pub open spec fn parse_u32(s: Seq<char>) -> Option<u32> {
    let d = unsigned_digits(s);
    if d.len() > 0 && (forall|i: int| 0 <= i < d.len() ==> is_digit(d[i])) && digits_value(d)
        <= u32::MAX {
        Some(digits_value(d) as u32)
    } else {
        None
    }
}

/// The height that a quality descriptor names: what follows its first `x`, where
/// that reads as a number, else the whole descriptor.
pub open spec fn quality_height(s: Seq<char>) -> Option<u32> {
    match first_index(s, seq!['x']) {
        Some(p) => match parse_u32(s.subrange(p + 1 as int, s.len() as int)) {
            Some(h) => Some(h),
            None => parse_u32(s),
        },
        None => parse_u32(s),
    }
}

/// Reads the characters of `s` from `from` on as a `u32`.
fn parse_u32_from(s: &Vec<char>, from: usize) -> (r: Option<u32>)
    requires
        from <= s@.len(),
    ensures
        r == parse_u32(s@.subrange(from as int, s@.len() as int)),
{
    let ghost whole = s@.subrange(from as int, s@.len() as int);
    let n = s.len();
    let mut b = from;
    if b < n && s[b] == '+' {
        b = b + 1;
    }
    let ghost d = s@.subrange(b as int, n as int);
    assert(d =~= unsigned_digits(whole));
    let mut val: u64 = 0;
    let mut over = false;
    let mut j = b;
    while j < n
        invariant
            n == s@.len(),
            b <= j <= n,
            d == s@.subrange(b as int, n as int),
            d == unsigned_digits(whole),
            whole == s@.subrange(from as int, s@.len() as int),
            forall|i: int| b <= i < j ==> is_digit(s@[i]),
            !over ==> val == digits_value(s@.subrange(b as int, j as int)) && val <= u32::MAX,
            over ==> digits_value(s@.subrange(b as int, j as int)) > u32::MAX,
        decreases n - j,
    {
        let c = s[j];
        proof {
            assert(s@.subrange(b as int, j + 1).drop_last() =~= s@.subrange(b as int, j as int));
        }
        if !('0' <= c && c <= '9') {
            assert(d[j - b] == c);
            assert(!is_digit(d[j - b]));
            return None;
        }
        if !over {
            val = val * 10 + ((c as u32) - ('0' as u32)) as u64;
            if val > 0xffff_ffff {
                over = true;
            }
        }
        j = j + 1;
    }
    assert(d =~= s@.subrange(b as int, j as int));
    if b == n || over {
        None
    } else {
        Some(val as u32)
    }
}

/// The height that a quality descriptor names: `"1920x1080"` gives 1080 and
/// `"720"` gives 720.
pub fn parse_quality(quality_str: &str) -> (r: Option<u32>)
    ensures
        r == quality_height(quality_str@),
{
    let s = chars_of(quality_str);
    let x = vec!['x'];
    assert(x@ =~= seq!['x']);
    proof { lemma_find_from(s@, x@, 0); }
    match find(&s, &x) {
        Some(p) => {
            match parse_u32_from(&s, p + 1) {
                Some(h) => {
                    return Some(h);
                },
                None => {},
            }
        },
        None => {},
    }
    assert(s@.subrange(0, s@.len() as int) =~= s@);
    parse_u32_from(&s, 0)
}

/// The label shown for a video height.
pub open spec fn quality_label(height: nat) -> Seq<char> {
    if height == 144 {
        "144p"@
    } else if height == 240 {
        "240p"@
    } else if height == 360 {
        "360p"@
    } else if height == 480 {
        "480p SD"@
    } else if height == 720 {
        "720p HD"@
    } else if height == 1080 {
        "1080p Full HD"@
    } else if height == 1440 {
        "1440p QHD"@
    } else if height == 2160 {
        "2160p 4K UHD"@
    } else if height == 4320 {
        "4320p 8K UHD"@
    } else {
        decimal(height) + seq!['p']
    }
}

/// The label shown for a video height: a named tier, or the height and `p`.
pub fn get_quality_label(height: u32) -> (r: String)
    ensures
        r@ == quality_label(height as nat),
{
    match height {
        144 => String::from_str("144p"),
        240 => String::from_str("240p"),
        360 => String::from_str("360p"),
        480 => String::from_str("480p SD"),
        720 => String::from_str("720p HD"),
        1080 => String::from_str("1080p Full HD"),
        1440 => String::from_str("1440p QHD"),
        2160 => String::from_str("2160p 4K UHD"),
        4320 => String::from_str("4320p 8K UHD"),
        _ => {
            let mut out = String::new();
            push_decimal(&mut out, height as u128);
            out.append("p");
            proof { reveal_strlit("p"); }
            assert(out@ =~= quality_label(height as nat));
            out
        },
    }
}

/// The number of supported resolutions.
pub open spec fn supported_count() -> nat {
    8
}

/// The `k`-th supported resolution.
pub open spec fn supported_quality(k: nat) -> Seq<char> {
    if k == 0 {
        "256x144"@
    } else if k == 1 {
        "426x240"@
    } else if k == 2 {
        "640x360"@
    } else if k == 3 {
        "854x480"@
    } else if k == 4 {
        "1280x720"@
    } else if k == 5 {
        "1920x1080"@
    } else if k == 6 {
        "2560x1440"@
    } else {
        "3840x2160"@
    }
}

/// What precedes the first `x` of `s`, or all of `s`.
pub open spec fn width_part(s: Seq<char>) -> Seq<char> {
    match first_index(s, seq!['x']) {
        Some(p) => s.subrange(0, p as int),
        None => s,
    }
}

/// Some supported resolution starts with the part of `quality` before its first `x`.
pub open spec fn supported(quality: Seq<char>) -> bool {
    exists|k: nat| k < supported_count() && occurs_at(supported_quality(k), width_part(quality), 0)
}

fn supported_str(k: usize) -> (r: &'static str)
    requires
        k < supported_count(),
    ensures
        r@ == supported_quality(k as nat),
{
    if k == 0 {
        "256x144"
    } else if k == 1 {
        "426x240"
    } else if k == 2 {
        "640x360"
    } else if k == 3 {
        "854x480"
    } else if k == 4 {
        "1280x720"
    } else if k == 5 {
        "1920x1080"
    } else if k == 6 {
        "2560x1440"
    } else {
        "3840x2160"
    }
}

/// Whether some supported resolution starts with the part of `quality` before
/// its first `x`.
pub fn is_supported_quality(quality: &str) -> (r: bool)
    ensures
        r == supported(quality@),
{
    let s = chars_of(quality);
    let x = vec!['x'];
    assert(x@ =~= seq!['x']);
    proof { lemma_find_from(s@, x@, 0); }
    let head = match find(&s, &x) {
        Some(p) => chars_of(quality.substring_char(0, p)),
        None => s,
    };
    assert(head@ == width_part(quality@));
    let mut k: usize = 0;
    while k < 8
        invariant
            head@ == width_part(quality@),
            k <= supported_count(),
            forall|i: nat| i < k ==> !occurs_at(supported_quality(i), head@, 0),
        decreases 8 - k,
    {
        let entry = chars_of(supported_str(k));
        if head.len() <= entry.len() && matches_at(&entry, &head, 0) {
            return true;
        }
        k = k + 1;
    }
    false
}

} // verus!
