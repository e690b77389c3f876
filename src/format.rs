use vstd::prelude::*;
use vstd::string::*;

use crate::text::{decimal, push_decimal};

verus! {

/// `n` in decimal, with a leading zero when it has a single digit.
pub open spec fn pad2(n: nat) -> Seq<char> {
    if n < 10 {
        seq!['0'] + decimal(n)
    } else {
        decimal(n)
    }
}

/// `num / den` rounded to the nearest integer, ties to the even one.
pub open spec fn round_half_even(num: nat, den: nat) -> nat
    recommends
        den > 0,
{
    let q = num / den;
    let r = num % den;
    if 2 * r > den {
        q + 1
    } else if 2 * r < den {
        q
    } else if q % 2 == 0 {
        q
    } else {
        q + 1
    }
}

pub open spec fn kib() -> nat {
    1024
}

pub open spec fn mib() -> nat {
    1024 * 1024
}

pub open spec fn gib() -> nat {
    1024 * 1024 * 1024
}

/// `bytes / unit` with exactly two decimal digits, rounded half to even.
pub open spec fn two_decimals(bytes: nat, unit: nat) -> Seq<char> {
    let q = round_half_even(bytes * 100, unit);
    decimal(q / 100) + seq!['.'] + pad2(q % 100)
}

/// A byte count in the largest binary unit that it reaches.
pub open spec fn file_size_text(bytes: nat) -> Seq<char> {
    if bytes >= gib() {
        two_decimals(bytes, gib()) + " GB"@
    } else if bytes >= mib() {
        two_decimals(bytes, mib()) + " MB"@
    } else if bytes >= kib() {
        two_decimals(bytes, kib()) + " KB"@
    } else {
        decimal(bytes) + " bytes"@
    }
}

/// A number of seconds as `HH:MM:SS`, or `MM:SS` below one hour.
pub open spec fn duration_text(seconds: nat) -> Seq<char> {
    let hours = seconds / 3600;
    let minutes = (seconds % 3600) / 60;
    let secs = seconds % 60;
    if hours > 0 {
        pad2(hours) + seq![':'] + pad2(minutes) + seq![':'] + pad2(secs)
    } else {
        pad2(minutes) + seq![':'] + pad2(secs)
    }
}

/// The greeting shown to `name`.
pub open spec fn greeting(name: Seq<char>) -> Seq<char> {
    "Hello, "@ + name + "! YouTube Downloader Ready!"@
}

/// The download identifier for a time stamp in milliseconds.
pub open spec fn download_id(timestamp_ms: nat) -> Seq<char> {
    "dl_"@ + decimal(timestamp_ms)
}

fn push_pad2(out: &mut String, n: u128)
    ensures
        final(out)@ == old(out)@ + pad2(n as nat),
{
    if n < 10 {
        out.append("0");
        proof { reveal_strlit("0"); }
    }
    push_decimal(out, n);
    assert(final(out)@ =~= old(out)@ + pad2(n as nat));
}

fn round_half_even_exec(num: u128, den: u128) -> (r: u128)
    requires
        den > 0,
        num <= 0xffff_ffff_ffff_ffff_ffff_ffff,
    ensures
        r == round_half_even(num as nat, den as nat),
{
    let q = num / den;
    let r = num % den;
    if r > den - r {
        q + 1
    } else if r < den - r {
        q
    } else if q % 2 == 0 {
        q
    } else {
        q + 1
    }
}

fn push_two_decimals(out: &mut String, bytes: u64, unit: u128)
    requires
        unit > 0,
    ensures
        final(out)@ == old(out)@ + two_decimals(bytes as nat, unit as nat),
{
    let q = round_half_even_exec(bytes as u128 * 100, unit);
    push_decimal(out, q / 100);
    out.append(".");
    proof { reveal_strlit("."); }
    push_pad2(out, q % 100);
    assert(final(out)@ =~= old(out)@ + two_decimals(bytes as nat, unit as nat));
}

/// Renders a byte count in GB, MB or KB with two decimals, or in bytes below 1 KB.
pub fn format_file_size(bytes: u64) -> (r: String)
    ensures
        r@ == file_size_text(bytes as nat),
{
    let mut out = String::new();
    if bytes >= 1024 * 1024 * 1024 {
        push_two_decimals(&mut out, bytes, 1024 * 1024 * 1024);
        out.append(" GB");
    } else if bytes >= 1024 * 1024 {
        push_two_decimals(&mut out, bytes, 1024 * 1024);
        out.append(" MB");
    } else if bytes >= 1024 {
        push_two_decimals(&mut out, bytes, 1024);
        out.append(" KB");
    } else {
        push_decimal(&mut out, bytes as u128);
        out.append(" bytes");
    }
    assert(out@ =~= file_size_text(bytes as nat));
    out
}

/// Renders a number of seconds as `HH:MM:SS`, or as `MM:SS` below one hour.
pub fn format_duration(seconds: u64) -> (r: String)
    ensures
        r@ == duration_text(seconds as nat),
{
    let hours = seconds / 3600;
    let minutes = (seconds % 3600) / 60;
    let secs = seconds % 60;
    let mut out = String::new();
    proof { reveal_strlit(":"); }
    if hours > 0 {
        push_pad2(&mut out, hours as u128);
        out.append(":");
    }
    push_pad2(&mut out, minutes as u128);
    out.append(":");
    push_pad2(&mut out, secs as u128);
    assert(out@ =~= duration_text(seconds as nat));
    out
}

/// The greeting shown to `name`.
pub fn greet(name: &str) -> (r: String)
    ensures
        r@ == greeting(name@),
{
    let mut out = String::from_str("Hello, ");
    out.append(name);
    out.append("! YouTube Downloader Ready!");
    out
}

/// The download identifier for a time stamp in milliseconds since the epoch.
pub fn generate_download_id(timestamp_ms: u128) -> (r: String)
    ensures
        r@ == download_id(timestamp_ms as nat),
{
    let mut out = String::from_str("dl_");
    push_decimal(&mut out, timestamp_ms);
    out
}

} // verus!
