//! Human-readable byte counts, speeds, durations and progress labels.
//!
//! Byte counts are shown the way a 64-bit float prints them with one decimal:
//! the count is first rounded to the nearest value a float can hold (ties to
//! even), scaled down by 1024 per unit step, and the tenths are rounded half
//! to even. The functions below compute that exactly with integers.

use vstd::prelude::*;
use crate::elapsed::Elapsed;
use vstd::utf8::{decode_utf8, encode_utf8, is_char_boundary};
use vstd::string::StringSliceAdditionalSpecFns;
use crate::text::{decimal, digit, digit_char, push_decimal, push_str, string_of, chars_of};

verus! {

/// `2^n`.
pub open spec fn two_pow(n: nat) -> nat
    decreases n,
{
    if n == 0 { 1 } else { 2 * two_pow((n - 1) as nat) }
}

/// `1024^k`.
pub open spec fn kib_pow(k: nat) -> nat
    decreases k,
{
    if k == 0 { 1 } else { 1024 * kib_pow((k - 1) as nat) }
}

/// How many low bits of `m` a 64-bit float cannot keep (its significand holds 53 bits).
pub open spec fn float_drop_bits(m: nat) -> nat
    decreases m,
{
    if m < 0x20_0000_0000_0000 { 0 } else { 1 + float_drop_bits(m / 2) }
}

/// The multiple of `p` nearest to `m`, ties going to an even multiple.
pub open spec fn nearest_even_multiple(m: nat, p: nat) -> nat
    recommends
        p > 0,
{
    let q = m / p;
    let r = m % p;
    if 2 * r > p || (2 * r == p && q % 2 == 1) {
        (q + 1) * p
    } else {
        q * p
    }
}

/// The value that a non-negative integer `m` becomes when converted to a 64-bit float.
pub open spec fn as_float(m: nat) -> nat {
    nearest_even_multiple(m, two_pow(float_drop_bits(m)))
}

/// `n / d` rounded to the nearest integer, ties to even.
pub open spec fn div_round_even(n: nat, d: nat) -> nat
    recommends
        d > 0,
{
    let q = n / d;
    let r = n % d;
    if 2 * r > d || (2 * r == d && q % 2 == 1) { q + 1 } else { q }
}

/// The unit index (`B`, `KB`, `MB`, `GB`, `TB`) reached from `k` by dividing by
/// 1024 while the value is at least 1024 and a larger unit remains.
pub open spec fn unit_steps(f: nat, k: nat) -> nat
    decreases 4 - k,
{
    if k < 4 && f >= kib_pow(k + 1) {
        unit_steps(f, k + 1)
    } else {
        k
    }
}

pub open spec fn unit_name(k: nat) -> Seq<char> {
    if k == 0 {
        seq!['B']
    } else if k == 1 {
        seq!['K', 'B']
    } else if k == 2 {
        seq!['M', 'B']
    } else if k == 3 {
        seq!['G', 'B']
    } else {
        seq!['T', 'B']
    }
}

/// The text of `format_bytes(bytes)`: the count as a float, in the largest
/// unit (up to TB) that keeps it at or above 1, with one decimal.
pub open spec fn bytes_text(bytes: int) -> Seq<char> {
    let neg = bytes < 0;
    let m: nat = if neg { (-bytes) as nat } else { bytes as nat };
    let f = as_float(m);
    let k = if neg { 0 } else { unit_steps(f, 0) };
    let t = div_round_even(f * 10, kib_pow(k));
    let sign: Seq<char> = if neg { seq!['-'] } else { seq![] };
    sign + decimal(t / 10) + seq!['.', digit_char((t % 10) as int), ' '] + unit_name(k)
}

/// Formats a byte count such as `1536` as `1.5 KB`.
pub fn format_bytes(bytes: i64) -> (s: String)
    ensures
        s@ == bytes_text(bytes as int),
{
    let neg = bytes < 0;
    let m: u64 = if !neg {
        bytes as u64
    } else if bytes == i64::MIN {
        0x8000_0000_0000_0000u64
    } else {
        (-bytes) as u64
    };
    let f = float_value(m);
    let mut k: u64 = 0;
    let mut d: u128 = 1;
    if !neg {
        while k < 4 && f >= d * 1024
            invariant
                k <= 4,
                d == kib_pow(k as nat),
                unit_steps(f as nat, 0) == unit_steps(f as nat, k as nat),
                f <= 0x1_0000_0000_0000_0000u128,
                1 <= d <= 0x100_0000_0000,
            decreases 4 - k,
        {
            d = d * 1024;
            k = k + 1;
            proof {
                lemma_kib_pow_bound(k as nat);
            }
        }
        proof {
            lemma_kib_pow_bound(k as nat);
        }
    }
    let n: u128 = f * 10;
    let q = n / d;
    let r = n % d;
    let t: u128 = if 2 * r > d || (2 * r == d && q % 2 == 1) { q + 1 } else { q };
    let mut out: Vec<char> = Vec::new();
    if neg {
        out.push('-');
    }
    push_decimal(&mut out, t / 10);
    out.push('.');
    out.push(digit(t % 10));
    out.push(' ');
    let unit = if k == 0 {
        "B"
    } else if k == 1 {
        "KB"
    } else if k == 2 {
        "MB"
    } else if k == 3 {
        "GB"
    } else {
        "TB"
    };
    proof {
        reveal_strlit("B");
        reveal_strlit("KB");
        reveal_strlit("MB");
        reveal_strlit("GB");
        reveal_strlit("TB");
    }
    push_str(&mut out, unit);
    assert(out@ =~= bytes_text(bytes as int));
    string_of(out.as_slice())
}

proof fn lemma_kib_pow_bound(k: nat)
    requires
        k <= 4,
    ensures
        1 <= kib_pow(k) <= 0x100_0000_0000,
{
    reveal_with_fuel(kib_pow, 5);
}

proof fn lemma_two_pow_positive(n: nat)
    ensures
        two_pow(n) >= 1,
    decreases n,
{
    if n > 0 {
        lemma_two_pow_positive((n - 1) as nat);
    }
}

/// The integer value of `m` after conversion to a 64-bit float.
fn float_value(m: u64) -> (f: u128)
    requires
        m <= 0x8000_0000_0000_0000u64,
    ensures
        f == as_float(m as nat),
        f <= 0x1_0000_0000_0000_0000u128,
{
    let mut x: u64 = m;
    let mut p: u64 = 1;
    let ghost mut s: nat = 0;
    proof {
        assert(m as int / 1 == m);
    }
    while x >= 0x20_0000_0000_0000u64
        invariant
            m <= 0x8000_0000_0000_0000u64,
            1 <= p,
            p == two_pow(s),
            x == m as int / p as int,
            float_drop_bits(m as nat) == s + float_drop_bits(x as nat),
            p * x <= m,
            p == 1 || p * 0x10_0000_0000_0000 <= m,
        decreases x,
    {
        proof {
            vstd::arithmetic::div_mod::lemma_div_denominator(m as int, p as int, 2);
            assert(p * 0x20_0000_0000_0000 <= m) by (nonlinear_arith)
                requires
                    p * x <= m,
                    x >= 0x20_0000_0000_0000,
                    p >= 1,
            ;
            assert(p <= 1024) by (nonlinear_arith)
                requires
                    p * 0x20_0000_0000_0000 <= m,
                    m <= 0x8000_0000_0000_0000u64,
            ;
            assert((p * 2) * 0x10_0000_0000_0000 <= m) by (nonlinear_arith)
                requires
                    p * 0x20_0000_0000_0000 <= m,
            ;
            vstd::arithmetic::div_mod::lemma_fundamental_div_mod(m as int, (p * 2) as int);
            vstd::arithmetic::div_mod::lemma_mod_pos_bound(m as int, (p * 2) as int);
        }
        x = x / 2;
        p = p * 2;
        proof {
            s = s + 1;
            assert(p * x <= m) by (nonlinear_arith)
                requires
                    m == p * (m as int / p as int) + m as int % p as int,
                    x == m as int / p as int,
                    0 <= m as int % p as int,
            ;
        }
    }
    let q = m / p;
    let r = m % p;
    proof {
        vstd::arithmetic::div_mod::lemma_fundamental_div_mod(m as int, p as int);
        vstd::arithmetic::div_mod::lemma_mod_pos_bound(m as int, p as int);
        assert(p * q <= m) by (nonlinear_arith)
            requires
                m == p * (m as int / p as int) + m as int % p as int,
                q == m as int / p as int,
                0 <= m as int % p as int,
        ;
        assert(p <= 2048) by (nonlinear_arith)
            requires
                p == 1 || p * 0x10_0000_0000_0000 <= m,
                m <= 0x8000_0000_0000_0000u64,
        ;
        assert(q < 0x20_0000_0000_0000);
    }
    let qq = q as u128;
    let pp = p as u128;
    assert((qq + 1) * pp <= 0x1_0000_0000_0000_0000u128) by (nonlinear_arith)
        requires
            qq < 0x20_0000_0000_0000,
            pp <= 2048,
    ;
    let f: u128 = if 2 * r > p || (2 * r == p && q % 2 == 1) { (qq + 1) * pp } else { qq * pp };
    proof {
        assert(f <= 0x1_0000_0000_0000_0000u128) by (nonlinear_arith)
            requires
                f == (q + 1) * p || f == q * p,
                q < 0x20_0000_0000_0000,
                p <= 2048,
        ;
    }
    f
}

/// Formats a transfer rate such as `1536` as `1.5 KB/s`.
pub fn format_speed(bytes_per_sec: u64) -> (s: String)
    ensures
        s@ == bytes_text((bytes_per_sec as i64) as int) + seq!['/', 's'],
{
    let mut out = chars_of(format_bytes(bytes_per_sec as i64).as_str());
    out.push('/');
    out.push('s');
    string_of(out.as_slice())
}

/// `downloaded/total` with both sizes formatted, or just the downloaded size
/// when the total is unknown.
pub open spec fn progress_pair_text(downloaded: int, total: Option<int>) -> Seq<char> {
    match total {
        Some(t) => bytes_text(downloaded) + seq!['/'] + bytes_text(t),
        None => bytes_text(downloaded),
    }
}

fn pair_text(downloaded: i64, total: Option<i64>) -> (s: String)
    ensures
        s@ == progress_pair_text(downloaded as int, match total { Some(t) => Some(t as int), None => None }),
{
    match total {
        Some(t) => {
            let mut out = chars_of(format_bytes(downloaded).as_str());
            out.push('/');
            let rest = format_bytes(t);
            push_str(&mut out, rest.as_str());
            string_of(out.as_slice())
        },
        None => format_bytes(downloaded),
    }
}

/// Progress of a live transfer, e.g. `1.0 MB/4.0 MB`.
pub fn progress_text(downloaded_bytes: u64, total_bytes: Option<u64>) -> (s: String)
    ensures
        s@ == progress_pair_text(
            (downloaded_bytes as i64) as int,
            match total_bytes { Some(t) => Some((t as i64) as int), None => None },
        ),
{
    let total = match total_bytes {
        Some(t) => Some(t as i64),
        None => None,
    };
    pair_text(downloaded_bytes as i64, total)
}

/// Progress of a stored download record, e.g. `1.0 MB/4.0 MB`.
pub fn history_progress_text(downloaded_bytes: i64, total_bytes: Option<i64>) -> (s: String)
    ensures
        s@ == progress_pair_text(
            downloaded_bytes as int,
            match total_bytes { Some(t) => Some(t as int), None => None },
        ),
{
    pair_text(downloaded_bytes, total_bytes)
}

/// Adds `value` with its unit letter to a duration text that already holds
/// `count` parts, unless the value is zero or two parts are already there.
pub open spec fn add_part(acc: (Seq<char>, nat), value: nat, unit: char) -> (Seq<char>, nat) {
    if value == 0 || acc.1 >= 2 {
        acc
    } else {
        let sep: Seq<char> = if acc.1 == 1 { seq![' '] } else { seq![] };
        (acc.0 + sep + decimal(value).push(unit), acc.1 + 1)
    }
}

/// The text of `format_duration`: below one second the milliseconds (`850ms`,
/// or `0s`), otherwise the two largest non-zero parts of days, hours, minutes
/// and seconds (`1m 5s`, `2h 3m`).
pub open spec fn duration_text(secs: nat, subsec_millis: nat) -> Seq<char> {
    if secs == 0 {
        if subsec_millis == 0 {
            seq!['0', 's']
        } else {
            decimal(subsec_millis) + seq!['m', 's']
        }
    } else {
        let a0 = (Seq::<char>::empty(), 0nat);
        let a1 = add_part(a0, secs / 86_400, 'd');
        let a2 = add_part(a1, (secs % 86_400) / 3_600, 'h');
        let a3 = add_part(a2, (secs % 3_600) / 60, 'm');
        let a4 = add_part(a3, secs % 60, 's');
        a4.0
    }
}

fn push_part(out: &mut Vec<char>, count: &mut u64, value: u64, unit: char)
    requires
        *old(count) <= 2,
    ensures
        (final(out)@, *final(count) as nat) == add_part((old(out)@, *old(count) as nat), value as nat, unit),
        *final(count) <= 2,
{
    if value == 0 || *count >= 2 {
        return;
    }
    if *count == 1 {
        out.push(' ');
    }
    push_decimal(out, value as u128);
    out.push(unit);
    *count = *count + 1;
}

/// Formats a duration compactly, e.g. `850ms`, `1m 5s` or `2h 3m`.
pub fn format_duration(duration: Elapsed) -> (s: String)
    ensures
        s@ == duration_text(duration.spec_secs(), duration.spec_subsec_nanos() / 1_000_000),
{
    let secs = duration.as_secs();
    if secs == 0 {
        let millis = duration.subsec_millis();
        if millis == 0 {
            let out: Vec<char> = vec!['0', 's'];
            return string_of(out.as_slice());
        }
        let mut out: Vec<char> = Vec::new();
        push_decimal(&mut out, millis as u128);
        out.push('m');
        out.push('s');
        return string_of(out.as_slice());
    }
    let days = secs / 86_400;
    let hours = (secs % 86_400) / 3_600;
    let minutes = (secs % 3_600) / 60;
    let seconds = secs % 60;
    let mut out: Vec<char> = Vec::new();
    let mut count: u64 = 0;
    push_part(&mut out, &mut count, days, 'd');
    push_part(&mut out, &mut count, hours, 'h');
    push_part(&mut out, &mut count, minutes, 'm');
    push_part(&mut out, &mut count, seconds, 's');
    string_of(out.as_slice())
}

/// The label shown for an active download writing to `output`.
pub fn active_label(output: &str) -> (s: String)
    ensures
        s@ == if output@.len() == 0 {
            seq!['D', 'o', 'w', 'n', 'l', 'o', 'a', 'd', 'i', 'n', 'g']
        } else {
            seq!['D', 'o', 'w', 'n', 'l', 'o', 'a', 'd', 'i', 'n', 'g', ':', ' '] + output@
        },
{
    let mut out: Vec<char> = Vec::new();
    push_str(&mut out, "Downloading");
    proof {
        reveal_strlit("Downloading");
    }
    if output.is_empty() {
        return string_of(out.as_slice());
    }
    out.push(':');
    out.push(' ');
    push_str(&mut out, output);
    string_of(out.as_slice())
}

/// Whether a progress update should be written to the database: at least
/// 500 ms since the last write, or at least 512 KiB more downloaded.
pub fn should_persist_progress(since_last_update: Elapsed, last_bytes: u64, downloaded_bytes: u64) -> (b: bool)
    ensures
        b == (since_last_update.total_nanos() >= 500_000_000 || downloaded_bytes - last_bytes >= 512 * 1024),
{
    if since_last_update.as_millis() >= 500 {
        return true;
    }
    let grown = if downloaded_bytes > last_bytes { downloaded_bytes - last_bytes } else { 0 };
    grown >= 512 * 1024
}

/// Average rate in bytes per second of `downloaded` bytes over `elapsed`
/// (whole milliseconds; 0 when under one millisecond).
pub open spec fn average_speed_value(downloaded: nat, elapsed_millis: nat) -> nat {
    if elapsed_millis == 0 {
        0
    } else {
        let ms = if elapsed_millis > u64::MAX { u64::MAX as nat } else { elapsed_millis };
        let scaled = if downloaded * 1000 > u64::MAX { u64::MAX as nat } else { downloaded * 1000 };
        scaled / ms
    }
}

pub fn average_speed(downloaded: u64, elapsed: Elapsed) -> (speed: u64)
    ensures
        speed == average_speed_value(downloaded as nat, elapsed.total_millis() as nat),
{
    let elapsed_ms = elapsed.as_millis();
    if elapsed_ms == 0 {
        return 0;
    }
    let ms: u64 = if elapsed_ms > u64::MAX as u128 { u64::MAX } else { elapsed_ms as u64 };
    let scaled: u64 = if downloaded > u64::MAX / 1000 { u64::MAX } else { downloaded * 1000 };
    scaled / ms
}

/// `url` cut to `max_len - 1` bytes followed by `…` when it is longer than
/// `max_len` bytes; unchanged otherwise.
pub fn truncate_url(url: &str, max_len: usize) -> (s: String)
    requires
        url.spec_bytes().len() <= usize::MAX,
        url.spec_bytes().len() > max_len ==> max_len >= 1 && is_char_boundary(
            url.spec_bytes(),
            max_len - 1,
        ),
    ensures
        s@ == if url.spec_bytes().len() <= max_len {
            url@
        } else {
            decode_utf8(url.spec_bytes().subrange(0, max_len - 1)) + seq!['…']
        },
{
    if url.len() <= max_len {
        return string_of(chars_of(url).as_slice());
    }
    let (head, _) = url.split_at(max_len - 1);
    proof {
        broadcast use vstd::utf8::encode_utf8_decode_utf8;
        assert(decode_utf8(encode_utf8(head@)) == head@);
    }
    let mut out = chars_of(head);
    out.push('…');
    string_of(out.as_slice())
}

/// `…` followed by the last `max_len - 1` bytes of `path` when it is longer
/// than `max_len` bytes; unchanged otherwise.
pub fn truncate_path(path: &str, max_len: usize) -> (s: String)
    requires
        path.spec_bytes().len() <= usize::MAX,
        path.spec_bytes().len() > max_len ==> max_len >= 1 && is_char_boundary(
            path.spec_bytes(),
            path.spec_bytes().len() - (max_len - 1),
        ),
    ensures
        s@ == if path.spec_bytes().len() <= max_len {
            path@
        } else {
            seq!['…'] + decode_utf8(
                path.spec_bytes().subrange(
                    path.spec_bytes().len() - (max_len - 1),
                    path.spec_bytes().len() as int,
                ),
            )
        },
{
    if path.len() <= max_len {
        return string_of(chars_of(path).as_slice());
    }
    let start = path.len() - (max_len - 1);
    let (_, tail) = path.split_at(start);
    proof {
        broadcast use vstd::utf8::encode_utf8_decode_utf8;
        assert(decode_utf8(encode_utf8(tail@)) == tail@);
    }
    let mut out: Vec<char> = vec!['…'];
    push_str(&mut out, tail);
    string_of(out.as_slice())
}

/// `value`, or `(not resolved yet)` when it is empty.
pub fn empty_as_unset(value: &str) -> (s: &str)
    ensures
        s@ == if value@.len() == 0 { "(not resolved yet)"@ } else { value@ },
{
    if value.is_empty() {
        "(not resolved yet)"
    } else {
        value
    }
}

} // verus!
