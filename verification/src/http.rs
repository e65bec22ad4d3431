//! What the downloader learns from HTTP response headers: the size of the
//! file, whether byte ranges are served, a suggested file name, and the
//! validators (ETag, Last-Modified) that guard a resumed transfer.

use vstd::prelude::*;
use crate::text::{
    chars_of, contains_seq, contains_chars, decimal, lower_char, lowered, parse_u64_chars, parse_u64_spec,
    push_decimal, string_of, trim_chars, trimmed,
};

verus! {

/// The response header values the downloader reads, as text (a header that is
/// absent or is not visible ASCII is `None`).
#[derive(Clone, Debug, Default)]
pub struct ResponseHeaders {
    pub content_length: Option<String>,
    pub accept_ranges: Option<String>,
    pub content_disposition: Option<String>,
    pub content_range: Option<String>,
    pub etag: Option<String>,
    pub last_modified: Option<String>,
    pub content_type: Option<String>,
}

/// A response to one of the probing requests: where it came from after
/// redirects, its status code and its headers.
#[derive(Clone, Debug)]
pub struct ProbeResponse {
    pub final_url: String,
    pub status: u16,
    pub headers: ResponseHeaders,
}

/// What a download needs to know about the remote file before it starts.
#[derive(Clone, Debug, PartialEq, Eq)]
pub struct HttpMeta {
    pub size: Option<u64>,
    pub accept_ranges: bool,
    pub filename: Option<String>,
    pub etag: Option<String>,
    pub last_modified: Option<String>,
    pub mime_type: Option<String>,
    pub final_url: String,
}

/// HTTP status 206 Partial Content.
pub const PARTIAL_CONTENT: u16 = 206;

pub open spec fn opt_view(o: Option<String>) -> Option<Seq<char>> {
    match o {
        Some(s) => Some(s@),
        None => None,
    }
}

/// `s` split at every `sep`, as `str::split` does: there is always at least
/// one part, and empty parts are kept.
pub open spec fn split_on(s: Seq<char>, sep: char) -> Seq<Seq<char>>
    decreases s.len(),
{
    if s.len() == 0 {
        seq![Seq::<char>::empty()]
    } else {
        let r = split_on(s.drop_last(), sep);
        if s.last() == sep {
            r.push(Seq::<char>::empty())
        } else {
            r.update(r.len() - 1, r.last().push(s.last()))
        }
    }
}

pub(crate) proof fn lemma_split_nonempty(s: Seq<char>, sep: char)
    ensures
        split_on(s, sep).len() >= 1,
    decreases s.len(),
{
    if s.len() > 0 {
        lemma_split_nonempty(s.drop_last(), sep);
    }
}

pub(crate) fn split_chars(s: &Vec<char>, sep: char) -> (parts: Vec<Vec<char>>)
    ensures
        parts.deep_view() == split_on(s@, sep),
{
    let mut parts: Vec<Vec<char>> = Vec::new();
    let mut cur: Vec<char> = Vec::new();
    let mut i: usize = 0;
    assert(s@.take(0) =~= Seq::<char>::empty());
    assert(parts.deep_view().push(cur@) =~= split_on(s@.take(0), sep));
    while i < s.len()
        invariant
            i <= s@.len(),
            split_on(s@.take(i as int), sep) == parts.deep_view().push(cur@),
        decreases s.len() - i,
    {
        let c = s[i];
        let ghost before = parts.deep_view();
        assert(s@.take(i + 1).drop_last() =~= s@.take(i as int));
        assert(s@.take(i + 1).last() == c);
        proof {
            lemma_split_nonempty(s@.take(i as int), sep);
        }
        if c == sep {
            let done = cur;
            assert(done.deep_view() =~= done@);
            parts.push(done);
            cur = Vec::new();
            assert(parts.deep_view() =~= before.push(done@));
            assert(parts.deep_view().push(cur@) =~= split_on(s@.take(i + 1), sep));
        } else {
            cur.push(c);
            assert(parts.deep_view().push(cur@) =~= split_on(s@.take(i + 1), sep));
        }
        i += 1;
    }
    let ghost before = parts.deep_view();
    let last = cur;
    assert(last.deep_view() =~= last@);
    parts.push(last);
    assert(parts.deep_view() =~= before.push(last@));
    assert(s@.take(s@.len() as int) =~= s@);
    parts
}

/// Whether `s` starts with `p`.
pub open spec fn has_prefix(s: Seq<char>, p: Seq<char>) -> bool {
    p.len() <= s.len() && s.take(p.len() as int) == p
}

pub(crate) fn starts_with_chars(s: &Vec<char>, p: &Vec<char>) -> (b: bool)
    ensures
        b == has_prefix(s@, p@),
{
    if p.len() > s.len() {
        return false;
    }
    let mut i: usize = 0;
    while i < p.len()
        invariant
            p@.len() <= s@.len(),
            i <= p@.len(),
            forall|k: int| 0 <= k < i ==> s@[k] == p@[k],
        decreases p.len() - i,
    {
        if s[i] != p[i] {
            assert(s@.take(p@.len() as int)[i as int] != p@[i as int]);
            return false;
        }
        i += 1;
    }
    assert(s@.take(p@.len() as int) =~= p@);
    true
}

/// `s` with every leading repetition of the non-empty `p` removed (what
/// `str::trim_start_matches` returns for a string pattern).
pub open spec fn strip_repeated(s: Seq<char>, p: Seq<char>) -> Seq<char>
    recommends
        p.len() > 0,
    decreases s.len(),
{
    if p.len() > 0 && has_prefix(s, p) {
        strip_repeated(s.skip(p.len() as int), p)
    } else {
        s
    }
}

/// The characters `filename=`.
pub open spec fn filename_key() -> Seq<char> {
    seq!['f', 'i', 'l', 'e', 'n', 'a', 'm', 'e', '=']
}

/// `n` without one pair of surrounding double quotes.
pub open spec fn unquoted(n: Seq<char>) -> Seq<char> {
    if n.len() >= 2 && n[0] == '"' && n.last() == '"' {
        n.subrange(1, n.len() - 1)
    } else {
        n
    }
}

/// The file name that one `;`-separated part of a Content-Disposition value
/// names, if it is a non-empty `filename=` parameter (the key compared
/// without regard to ASCII case, the value unquoted).
pub open spec fn filename_param(part: Seq<char>) -> Option<Seq<char>> {
    let t = trimmed(part);
    if has_prefix(lowered(t), filename_key()) {
        let n = unquoted(strip_repeated(t, filename_key()));
        if n.len() > 0 {
            Some(n)
        } else {
            None
        }
    } else {
        None
    }
}

/// The first file name that the parts name, in order.
pub open spec fn first_filename(parts: Seq<Seq<char>>) -> Option<Seq<char>>
    decreases parts.len(),
{
    if parts.len() == 0 {
        None
    } else {
        match filename_param(parts[0]) {
            Some(n) => Some(n),
            None => first_filename(parts.drop_first()),
        }
    }
}

/// The file name suggested by a Content-Disposition value.
pub open spec fn disposition_filename(value: Seq<char>) -> Option<Seq<char>> {
    first_filename(split_on(value, ';'))
}

fn lowered_chars(s: &Vec<char>) -> (r: Vec<char>)
    ensures
        r@ == lowered(s@),
{
    let mut r: Vec<char> = Vec::new();
    let mut i: usize = 0;
    while i < s.len()
        invariant
            i <= s@.len(),
            r@ == lowered(s@.take(i as int)),
        decreases s.len() - i,
    {
        r.push(lower_char(s[i]));
        i += 1;
        assert(r@ =~= lowered(s@.take(i as int)));
    }
    assert(s@.take(s@.len() as int) =~= s@);
    r
}

fn strip_repeated_chars(s: &Vec<char>, p: &Vec<char>) -> (r: Vec<char>)
    requires
        p@.len() > 0,
    ensures
        r@ == strip_repeated(s@, p@),
{
    let mut start: usize = 0;
    let ghost mut rest = s@;
    while p.len() <= s.len() - start && matches_prefix_at(s, p, start)
        invariant
            p@.len() > 0,
            start <= s@.len(),
            rest == s@.skip(start as int),
            strip_repeated(s@, p@) == strip_repeated(rest, p@),
        decreases s.len() - start,
    {
        proof {
            assert(has_prefix(rest, p@));
            assert(rest.skip(p@.len() as int) =~= s@.skip(start + p@.len()));
            rest = rest.skip(p@.len() as int);
        }
        start = start + p.len();
    }
    proof {
        if start + p@.len() <= s@.len() {
            assert(!has_prefix(rest, p@));
        } else {
            assert(!has_prefix(rest, p@));
        }
    }
    let mut r: Vec<char> = Vec::new();
    let mut i = start;
    while i < s.len()
        invariant
            start <= i <= s@.len(),
            r@ == s@.subrange(start as int, i as int),
        decreases s.len() - i,
    {
        r.push(s[i]);
        i += 1;
        assert(r@ =~= s@.subrange(start as int, i as int));
    }
    assert(rest =~= s@.subrange(start as int, s@.len() as int));
    r
}

/// Whether `p` occurs in `s` at `start`.
fn matches_prefix_at(s: &Vec<char>, p: &Vec<char>, start: usize) -> (b: bool)
    requires
        start + p@.len() <= s@.len(),
    ensures
        b == has_prefix(s@.skip(start as int), p@),
{
    let n = s.len();
    let mut i: usize = 0;
    while i < p.len()
        invariant
            n == s@.len(),
            start + p@.len() <= s@.len(),
            i <= p@.len(),
            forall|k: int| 0 <= k < i ==> s@[start + k] == p@[k],
        decreases p.len() - i,
    {
        if s[start + i] != p[i] {
            assert(s@.skip(start as int).take(p@.len() as int)[i as int] != p@[i as int]);
            return false;
        }
        i += 1;
    }
    assert(s@.skip(start as int).take(p@.len() as int) =~= p@);
    true
}

fn unquoted_chars(n: Vec<char>) -> (r: Vec<char>)
    ensures
        r@ == unquoted(n@),
{
    let len = n.len();
    if len >= 2 && n[0] == '"' && n[len - 1] == '"' {
        let mut r: Vec<char> = Vec::new();
        let mut i: usize = 1;
        while i < len - 1
            invariant
                len == n@.len(),
                len >= 2,
                1 <= i <= len - 1,
                r@ == n@.subrange(1, i as int),
            decreases len - 1 - i,
        {
            r.push(n[i]);
            i += 1;
            assert(r@ =~= n@.subrange(1, i as int));
        }
        r
    } else {
        n
    }
}

fn filename_param_chars(part: &Vec<char>) -> (r: Option<Vec<char>>)
    ensures
        r matches Some(v) ==> filename_param(part@) == Some(v@),
        r is None ==> filename_param(part@) is None,
{
    let t = trim_chars(part);
    let key: Vec<char> = vec!['f', 'i', 'l', 'e', 'n', 'a', 'm', 'e', '='];
    assert(key@ =~= filename_key());
    let low = lowered_chars(&t);
    if !starts_with_chars(&low, &key) {
        return None;
    }
    let stripped = strip_repeated_chars(&t, &key);
    let n = unquoted_chars(stripped);
    if n.len() == 0 {
        return None;
    }
    Some(n)
}

/// The file name suggested by the Content-Disposition header: the first
/// non-empty `filename=` parameter, unquoted.
pub fn filename_from_headers(headers: &ResponseHeaders) -> (r: Option<String>)
    ensures
        opt_view(r) == match headers.content_disposition {
            Some(v) => disposition_filename(v@),
            None => None,
        },
{
    let value = match &headers.content_disposition {
        Some(v) => v,
        None => return None,
    };
    let chars = chars_of(value.as_str());
    let parts = split_chars(&chars, ';');
    let ghost all = parts.deep_view();
    assert(all.skip(0) =~= all);
    let mut i: usize = 0;
    while i < parts.len()
        invariant
            all == parts.deep_view(),
            all == split_on(value@, ';'),
            headers.content_disposition == Some(*value),
            i <= parts@.len(),
            first_filename(all) == first_filename(all.skip(i as int)),
        decreases parts.len() - i,
    {
        let ghost rest = all.skip(i as int);
        assert(parts@[i as int].deep_view() =~= parts@[i as int]@);
        assert(rest[0] == parts@[i as int]@);
        assert(rest.drop_first() =~= all.skip(i + 1));
        match filename_param_chars(&parts[i]) {
            Some(n) => {
                assert(rest.len() > 0);
                assert(first_filename(rest) == Some(n@));
                return Some(string_of(n.as_slice()));
            },
            None => {},
        }
        i += 1;
    }
    assert(all.skip(i as int).len() == 0);
    None
}

/// The part of `s` after its last `/` (all of `s` when it has none).
pub open spec fn after_last_slash(s: Seq<char>) -> Seq<char>
    decreases s.len(),
{
    if s.len() == 0 {
        s
    } else if s.last() == '/' {
        Seq::<char>::empty()
    } else {
        after_last_slash(s.drop_last()).push(s.last())
    }
}

/// The complete length that a Content-Range value announces: the number after
/// its last `/`, unless that is `*`.
pub open spec fn range_total(value: Seq<char>) -> Option<u64> {
    let total = after_last_slash(value);
    if total == seq!['*'] {
        None
    } else {
        parse_u64_spec(total)
    }
}

fn after_last_slash_chars(s: &Vec<char>) -> (r: Vec<char>)
    ensures
        r@ == after_last_slash(s@),
{
    let mut r: Vec<char> = Vec::new();
    let mut i: usize = 0;
    while i < s.len()
        invariant
            i <= s@.len(),
            r@ == after_last_slash(s@.take(i as int)),
        decreases s.len() - i,
    {
        assert(s@.take(i + 1).drop_last() =~= s@.take(i as int));
        if s[i] == '/' {
            r = Vec::new();
        } else {
            r.push(s[i]);
        }
        i += 1;
        assert(r@ =~= after_last_slash(s@.take(i as int)));
    }
    assert(s@.take(s@.len() as int) =~= s@);
    r
}

/// The complete length from the Content-Range header, if it announces one.
pub fn total_from_content_range(headers: &ResponseHeaders) -> (r: Option<u64>)
    ensures
        r == match headers.content_range {
            Some(v) => range_total(v@),
            None => None,
        },
{
    let value = match &headers.content_range {
        Some(v) => v,
        None => return None,
    };
    let chars = chars_of(value.as_str());
    let total = after_last_slash_chars(&chars);
    if total.len() == 1 && total[0] == '*' {
        assert(total@ =~= seq!['*']);
        return None;
    }
    assert(total@ != seq!['*']);
    parse_u64_chars(&total)
}

/// A header value trimmed of white space, or `None` when nothing is left.
pub open spec fn trimmed_value(v: Option<Seq<char>>) -> Option<Seq<char>> {
    match v {
        Some(s) => if trimmed(s).len() == 0 { None } else { Some(trimmed(s)) },
        None => None,
    }
}

/// A header value trimmed of white space, or `None` when absent or blank.
pub fn header_string(value: Option<&str>) -> (r: Option<String>)
    ensures
        opt_view(r) == trimmed_value(match value { Some(s) => Some(s@), None => None }),
{
    let value = match value {
        Some(v) => v,
        None => return None,
    };
    let t = trim_chars(&chars_of(value));
    if t.len() == 0 {
        return None;
    }
    Some(string_of(t.as_slice()))
}

fn header_text(value: &Option<String>) -> (r: Option<String>)
    ensures
        opt_view(r) == trimmed_value(opt_view(*value)),
{
    match value {
        Some(v) => header_string(Some(v.as_str())),
        None => header_string(None),
    }
}

/// The size that a Content-Length value gives, if it is a plain number.
pub open spec fn length_value(v: Option<String>) -> Option<u64> {
    match v {
        Some(s) => parse_u64_spec(s@),
        None => None,
    }
}

fn content_length(headers: &ResponseHeaders) -> (r: Option<u64>)
    ensures
        r == length_value(headers.content_length),
{
    match &headers.content_length {
        Some(v) => parse_u64_chars(&chars_of(v.as_str())),
        None => None,
    }
}

/// The characters `bytes`.
pub open spec fn bytes_unit() -> Seq<char> {
    seq!['b', 'y', 't', 'e', 's']
}

/// Whether an Accept-Ranges value mentions `bytes`, in any ASCII case.
pub open spec fn ranges_accepted(v: Option<String>) -> bool {
    match v {
        Some(s) => contains_seq(lowered(s@), bytes_unit()),
        None => false,
    }
}

/// `s` holds the word `bytes`, in any ASCII case, starting at position `i`.
pub open spec fn bytes_word_at(s: Seq<char>, i: int) -> bool {
    &&& 0 <= i && i + 5 <= s.len()
    &&& (s[i] == 'b' || s[i] == 'B')
    &&& (s[i + 1] == 'y' || s[i + 1] == 'Y')
    &&& (s[i + 2] == 't' || s[i + 2] == 'T')
    &&& (s[i + 3] == 'e' || s[i + 3] == 'E')
    &&& (s[i + 4] == 's' || s[i + 4] == 'S')
}

proof fn lemma_lower_is(c: char, lo: char, up: char)
    requires
        'a' <= lo <= 'z',
        up as u32 + 32 == lo as u32,
    ensures
        (crate::text::lower(c) == lo) <==> (c == lo || c == up),
{
}

/// Law: an Accept-Ranges value announces byte ranges exactly when the word
/// `bytes` occurs in it, in any ASCII case; a value without it (such as
/// `none`) does not, and neither does a missing header.
pub proof fn lemma_ranges_accepted_means_bytes_word(v: Option<String>)
    ensures
        ranges_accepted(v) <==> (v matches Some(s) && exists|i: int| bytes_word_at(s@, i)),
{
    if let Some(s) = v {
        let t = s@;
        let low = crate::text::lowered(t);
        assert forall|i: int| crate::text::occurs_at(low, bytes_unit(), i) <==> bytes_word_at(t, i) by {
            if 0 <= i && i + 5 <= t.len() {
                lemma_lower_is(t[i], 'b', 'B');
                lemma_lower_is(t[i + 1], 'y', 'Y');
                lemma_lower_is(t[i + 2], 't', 'T');
                lemma_lower_is(t[i + 3], 'e', 'E');
                lemma_lower_is(t[i + 4], 's', 'S');
                let sub = low.subrange(i, i + 5);
                if crate::text::occurs_at(low, bytes_unit(), i) {
                    assert(sub[0] == low[i] && sub[1] == low[i + 1] && sub[2] == low[i + 2]
                        && sub[3] == low[i + 3] && sub[4] == low[i + 4]);
                }
                if bytes_word_at(t, i) {
                    assert(sub =~= bytes_unit());
                }
            }
        }
        if ranges_accepted(v) {
            let i = choose|i: int| crate::text::occurs_at(low, bytes_unit(), i);
            assert(bytes_word_at(t, i));
        }
        if exists|i: int| bytes_word_at(t, i) {
            let i = choose|i: int| bytes_word_at(t, i);
            assert(crate::text::occurs_at(low, bytes_unit(), i));
        }
    }
}

fn accepts_byte_ranges(headers: &ResponseHeaders) -> (b: bool)
    ensures
        b == ranges_accepted(headers.accept_ranges),
{
    match &headers.accept_ranges {
        Some(v) => {
            let low = lowered_chars(&chars_of(v.as_str()));
            let unit: Vec<char> = vec!['b', 'y', 't', 'e', 's'];
            assert(unit@ =~= bytes_unit());
            contains_chars(&low, &unit)
        },
        None => false,
    }
}

/// What the HEAD response tells (or, when the HEAD request failed, nothing but
/// the URL itself).
pub open spec fn head_meta(url: Seq<char>, head: Option<ProbeResponse>, m: HttpMeta) -> bool {
    match head {
        Some(resp) => {
            &&& m.final_url@ == resp.final_url@
            &&& m.size == length_value(resp.headers.content_length)
            &&& m.accept_ranges == ranges_accepted(resp.headers.accept_ranges)
            &&& opt_view(m.filename) == match resp.headers.content_disposition {
                Some(v) => disposition_filename(v@),
                None => None,
            }
            &&& opt_view(m.etag) == trimmed_value(opt_view(resp.headers.etag))
            &&& opt_view(m.last_modified) == trimmed_value(opt_view(resp.headers.last_modified))
            &&& opt_view(m.mime_type) == trimmed_value(opt_view(resp.headers.content_type))
        },
        None => {
            &&& m.final_url@ == url
            &&& m.size is None
            &&& !m.accept_ranges
            &&& m.filename is None
            &&& m.etag is None
            &&& m.last_modified is None
            &&& m.mime_type is None
        },
    }
}

/// Reads the response to the HEAD request (`None` when the request failed).
pub fn meta_from_head(url: &str, head: Option<&ProbeResponse>) -> (m: HttpMeta)
    ensures
        head_meta(url@, match head { Some(r) => Some(*r), None => None }, m),
{
    match head {
        Some(resp) => {
            let h = &resp.headers;
            HttpMeta {
                size: content_length(h),
                accept_ranges: accepts_byte_ranges(h),
                filename: filename_from_headers(h),
                etag: header_text(&h.etag),
                last_modified: header_text(&h.last_modified),
                mime_type: header_text(&h.content_type),
                final_url: resp.final_url.clone(),
            }
        },
        None => HttpMeta {
            size: None,
            accept_ranges: false,
            filename: None,
            etag: None,
            last_modified: None,
            mime_type: None,
            final_url: string_of(chars_of(url).as_slice()),
        },
    }
}

/// Whether a `bytes=0-0` request has to be sent after the HEAD request: when
/// the HEAD response did not announce byte ranges.
pub fn needs_range_probe(meta: &HttpMeta) -> (b: bool)
    ensures
        b == !meta.accept_ranges,
{
    !meta.accept_ranges
}

/// `a` when present, else `b`.
pub open spec fn or_else<T>(a: Option<T>, b: Option<T>) -> Option<T> {
    if a is Some { a } else { b }
}

/// What the metadata becomes once the answer to the `bytes=0-0` request is known.
pub open spec fn probed_meta(before: HttpMeta, probe: Option<ProbeResponse>, m: HttpMeta) -> bool {
    match probe {
        None => m == (HttpMeta { accept_ranges: false, ..before }),
        Some(resp) => {
            let h = resp.headers;
            &&& m.final_url@ == resp.final_url@
            &&& m.accept_ranges == (before.accept_ranges || resp.status == PARTIAL_CONTENT)
            &&& m.size == if before.size is Some {
                before.size
            } else if (match h.content_range {
                Some(v) => range_total(v@),
                None => None,
            }) is Some {
                match h.content_range {
                    Some(v) => range_total(v@),
                    None => None,
                }
            } else {
                length_value(h.content_length)
            }
            &&& opt_view(m.filename) == or_else(
                opt_view(before.filename),
                match h.content_disposition {
                    Some(v) => disposition_filename(v@),
                    None => None,
                },
            )
            &&& opt_view(m.etag) == or_else(opt_view(before.etag), trimmed_value(opt_view(h.etag)))
            &&& opt_view(m.last_modified) == or_else(
                opt_view(before.last_modified),
                trimmed_value(opt_view(h.last_modified)),
            )
            &&& opt_view(m.mime_type) == or_else(
                opt_view(before.mime_type),
                trimmed_value(opt_view(h.content_type)),
            )
        },
    }
}

fn keep_or(a: Option<String>, b: &Option<String>) -> (r: Option<String>)
    ensures
        opt_view(r) == or_else(opt_view(a), trimmed_value(opt_view(*b))),
{
    if a.is_some() {
        a
    } else {
        header_text(b)
    }
}

/// Folds the answer to the `bytes=0-0` request (`None` when it failed) into
/// the metadata read from the HEAD response.
pub fn merge_range_probe(before: HttpMeta, probe: Option<&ProbeResponse>) -> (m: HttpMeta)
    ensures
        probed_meta(before, match probe { Some(r) => Some(*r), None => None }, m),
{
    let resp = match probe {
        Some(r) => r,
        None => return HttpMeta { accept_ranges: false, ..before },
    };
    let h = &resp.headers;
    let accept_ranges = before.accept_ranges || resp.status == PARTIAL_CONTENT;
    let size = if before.size.is_some() {
        before.size
    } else {
        let total = total_from_content_range(h);
        if total.is_some() {
            total
        } else {
            content_length(h)
        }
    };
    let filename = if before.filename.is_some() {
        before.filename
    } else {
        filename_from_headers(h)
    };
    HttpMeta {
        size,
        accept_ranges,
        filename,
        etag: keep_or(before.etag, &h.etag),
        last_modified: keep_or(before.last_modified, &h.last_modified),
        mime_type: keep_or(before.mime_type, &h.content_type),
        final_url: resp.final_url.clone(),
    }
}

/// The text of a Range header asking for `start..=end`, or for everything from
/// `start` when there is no end.
pub open spec fn range_header_text(start: nat, end: Option<u64>) -> Seq<char> {
    seq!['b', 'y', 't', 'e', 's', '='] + decimal(start) + seq!['-'] + match end {
        Some(e) => decimal(e as nat),
        None => Seq::<char>::empty(),
    }
}

/// The Range header value for `start..=end` (open-ended without an end).
pub fn range_header(start: u64, end: Option<u64>) -> (s: String)
    ensures
        s@ == range_header_text(start as nat, end),
{
    let mut out: Vec<char> = vec!['b', 'y', 't', 'e', 's', '='];
    push_decimal(&mut out, start as u128);
    out.push('-');
    match end {
        Some(e) => push_decimal(&mut out, e as u128),
        None => {},
    }
    string_of(out.as_slice())
}

} // verus!
