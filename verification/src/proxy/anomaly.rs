//! Response-body heuristics: known database errors, stack traces and debug
//! pages in a response body.

use vstd::prelude::*;
use vstd::utf8::*;
use vstd::string::{StringSliceAdditionalSpecFns, StrSliceExecFns};
use crate::text::{find_in, find_bytes, occurs_at};

verus! {

broadcast use vstd::utf8::group_utf8_lib;

/// A detected anomaly: which signal fired and the text around it.
#[derive(Debug, Clone, PartialEq, Eq)]
pub struct AnomalyHit {
    pub signal: String,
    pub excerpt: String,
}

/// Number of patterns, scanned in order.
pub open spec fn signal_count() -> int {
    11
}

/// Name of the signal that pattern `k` reports.
pub open spec fn signal_name(k: int) -> Seq<char> {
    if 0 <= k < 6 {
        "database_error_string"@
    } else if 6 <= k < 9 {
        "stack_trace"@
    } else {
        "debug_disclosure"@
    }
}

/// Text that pattern `k` looks for.
pub open spec fn signal_needle(k: int) -> Seq<char> {
    if k == 0 {
        "SQLSTATE["@
    } else if k == 1 {
        "SQL syntax"@
    } else if k == 2 {
        "mysql_fetch"@
    } else if k == 3 {
        "ORA-"@
    } else if k == 4 {
        "PostgreSQL"@
    } else if k == 5 {
        "sqlite3.OperationalError"@
    } else if k == 6 {
        "Traceback (most recent call last)"@
    } else if k == 7 {
        "Exception in thread"@
    } else if k == 8 {
        " at java."@
    } else if k == 9 {
        "phpinfo()"@
    } else {
        "ASP.NET is configured"@
    }
}

/// UTF-8 bytes of pattern `k`.
pub open spec fn needle_bytes(k: int) -> Seq<u8> {
    encode_utf8(signal_needle(k))
}

fn signal(k: usize) -> (r: (&'static str, &'static str))
    requires
        k < 11,
    ensures
        r.0@ == signal_name(k as int),
        r.1@ == signal_needle(k as int),
{
    if k == 0 {
        ("database_error_string", "SQLSTATE[")
    } else if k == 1 {
        ("database_error_string", "SQL syntax")
    } else if k == 2 {
        ("database_error_string", "mysql_fetch")
    } else if k == 3 {
        ("database_error_string", "ORA-")
    } else if k == 4 {
        ("database_error_string", "PostgreSQL")
    } else if k == 5 {
        ("database_error_string", "sqlite3.OperationalError")
    } else if k == 6 {
        ("stack_trace", "Traceback (most recent call last)")
    } else if k == 7 {
        ("stack_trace", "Exception in thread")
    } else if k == 8 {
        ("stack_trace", " at java.")
    } else if k == 9 {
        ("debug_disclosure", "phpinfo()")
    } else {
        ("debug_disclosure", "ASP.NET is configured")
    }
}

/// The first pattern, from `k` on, that occurs in `text`, with the byte
/// position of its first occurrence.
pub open spec fn first_signal_from(text: Seq<u8>, k: int) -> Option<(int, int)>
    decreases signal_count() - k,
{
    if k < 0 || k >= signal_count() {
        None
    } else {
        match find_bytes(text, needle_bytes(k)) {
            Some(i) => Some((k, i)),
            None => first_signal_from(text, k + 1),
        }
    }
}

/// The first pattern (in table order, not in text order) that occurs in `text`.
pub open spec fn first_signal(text: Seq<u8>) -> Option<(int, int)> {
    first_signal_from(text, 0)
}

/// End of the excerpt's byte window: 48 bytes past the end of the match,
/// clipped to the text.
pub open spec fn excerpt_end(len: int, idx: int, nlen: int) -> int {
    if idx + nlen + 48 <= len { idx + nlen + 48 } else { len }
}

/// The last character boundary of `text` in `lo..=e` (`lo` when there is none).
pub open spec fn boundary_floor(text: Seq<u8>, lo: int, e: int) -> int
    decreases e - lo,
{
    if e <= lo {
        lo
    } else if is_char_boundary(text, e) {
        e
    } else {
        boundary_floor(text, lo, e - 1)
    }
}

/// Where the excerpt of a match of pattern `k` at byte `idx` ends: the end
/// of its byte window, moved back to a character boundary.
pub open spec fn excerpt_cut(text: Seq<u8>, k: int, idx: int) -> int {
    boundary_floor(text, idx, excerpt_end(text.len() as int, idx, needle_bytes(k).len() as int))
}

/// The excerpt: the characters of the bytes from the match to the excerpt
/// end, at most 80 of them.
pub open spec fn excerpt_chars(text: Seq<u8>, idx: int, end: int) -> Seq<char> {
    let chars = decode_utf8(text.subrange(idx, end));
    if chars.len() <= 80 { chars } else { chars.take(80) }
}

/// The anomaly found in a text, as (signal, excerpt).
pub open spec fn anomaly_of(text: Seq<u8>) -> Option<(Seq<char>, Seq<char>)> {
    match first_signal(text) {
        None => None,
        Some((k, idx)) => Some((signal_name(k), excerpt_chars(text, idx, excerpt_cut(text, k, idx)))),
    }
}

/// What `String::from_utf8_lossy` makes of a byte string.
pub uninterp spec fn utf8_lossy(bytes: Seq<u8>) -> Seq<char>;

/// A response body's lossy UTF-8 text: std documents that valid UTF-8 is
/// decoded unchanged; what invalid bytes become is named by [`utf8_lossy`].
pub open spec fn lossy_chars(body: Seq<u8>) -> Seq<char> {
    if valid_utf8(body) { decode_utf8(body) } else { utf8_lossy(body) }
}

/// The bytes of a response body's lossy UTF-8 text.
pub open spec fn lossy_bytes(body: Seq<u8>) -> Seq<u8> {
    encode_utf8(lossy_chars(body))
}

/// The anomaly found in a response body: that of its lossy UTF-8 text.
pub open spec fn body_anomaly(body: Seq<u8>) -> Option<(Seq<char>, Seq<char>)> {
    anomaly_of(lossy_bytes(body))
}

/// Each pattern is 1 to 33 ASCII bytes.
proof fn lemma_needle_ascii(k: int)
    ensures
        1 <= needle_bytes(k).len() <= 33,
        forall|i: int| 0 <= i < needle_bytes(k).len() ==> #[trigger] needle_bytes(k)[i] < 0x80,
{
    reveal_strlit("SQLSTATE[");
    reveal_strlit("SQL syntax");
    reveal_strlit("mysql_fetch");
    reveal_strlit("ORA-");
    reveal_strlit("PostgreSQL");
    reveal_strlit("sqlite3.OperationalError");
    reveal_strlit("Traceback (most recent call last)");
    reveal_strlit("Exception in thread");
    reveal_strlit(" at java.");
    reveal_strlit("phpinfo()");
    reveal_strlit("ASP.NET is configured");
    let n = signal_needle(k);
    assert(is_ascii_chars(n));
    assert(1 <= n.len() <= 33);
    assert forall|i: int| 0 <= i < needle_bytes(k).len() implies #[trigger] needle_bytes(k)[i] < 0x80 by {
        assert(n[i] as u8 == encode_utf8(n)[i]);
    }
}

/// In valid UTF-8, an ASCII byte ends a character.
proof fn lemma_after_ascii_is_boundary(t: Seq<u8>, j: int)
    requires
        valid_utf8(t),
        0 <= j < t.len(),
        t[j] < 0x80,
    ensures
        is_char_boundary(t, j + 1),
{
    assert(is_char_boundary(t, j) <==> !is_continuation_byte(t[j]));
    let tail = t.subrange(j, t.len() as int);
    assert(valid_utf8(tail));
    assert(tail[0] == t[j]);
    let rest = pop_first_scalar(tail);
    assert(rest =~= t.subrange(j + 1, t.len() as int));
    if j + 1 < t.len() {
        assert(valid_utf8(rest));
        assert(is_char_boundary(rest, 0));
        assert(is_char_boundary(rest, 0) <==> !is_continuation_byte(rest[0]));
        assert(rest[0] == t[j + 1]);
        assert(is_char_boundary(t, j + 1) <==> !is_continuation_byte(t[j + 1]));
    } else {
        assert(is_char_boundary(t, t.len() as int));
    }
}

/// A match of a pattern starts and ends on character boundaries.
proof fn lemma_match_boundaries(text: Seq<u8>, k: int, idx: int)
    requires
        valid_utf8(text),
        occurs_at(text, needle_bytes(k), idx),
    ensures
        is_char_boundary(text, idx),
        is_char_boundary(text, idx + needle_bytes(k).len()),
        idx + needle_bytes(k).len() <= text.len(),
{
    lemma_needle_ascii(k);
    let n = needle_bytes(k);
    assert(text.subrange(idx, idx + n.len()) == n);
    assert(text[idx] == n[0]) by { assert(text.subrange(idx, idx + n.len())[0] == text[idx]); }
    assert(is_char_boundary(text, idx) <==> !is_continuation_byte(text[idx]));
    let last = idx + n.len() - 1;
    assert(text[last] == n[n.len() - 1]) by { assert(text.subrange(idx, idx + n.len())[n.len() - 1] == text[last]); }
    lemma_after_ascii_is_boundary(text, last);
}

/// The floor lies in `lo..=max(lo, e)`, is a boundary when `lo` is, and is at
/// least every boundary in `lo..=e`.
proof fn lemma_boundary_floor(text: Seq<u8>, lo: int, e: int, b: int)
    ensures
        lo <= boundary_floor(text, lo, e),
        e >= lo ==> boundary_floor(text, lo, e) <= e,
        is_char_boundary(text, lo) ==> is_char_boundary(text, boundary_floor(text, lo, e)),
        lo <= b <= e && is_char_boundary(text, b) ==> b <= boundary_floor(text, lo, e),
    decreases e - lo,
{
    if e > lo && !is_char_boundary(text, e) {
        lemma_boundary_floor(text, lo, e - 1, b);
    }
}

/// Calls `String::from_utf8_lossy`: std documents that valid UTF-8 comes back
/// unchanged; for other bytes the result is named by [`utf8_lossy`] (see
/// [`lossy_chars`]). How invalid sequences are replaced is left unsaid.
#[verifier::external_body]
pub(crate) fn lossy_text(body: &[u8]) -> (s: String)
    ensures
        s@ == lossy_chars(body@),
        !valid_utf8(body@) ==> s@ == utf8_lossy(body@),
{
    String::from_utf8_lossy(body).into_owned()
}

/// Scans for the first pattern that occurs: (pattern index, byte position).
fn scan(bytes: &[u8]) -> (r: Option<(usize, usize)>)
    ensures
        match r {
            Some((k, i)) => first_signal(bytes@) == Some((k as int, i as int)) && k < 11,
            None => first_signal(bytes@) is None,
        },
{
    let mut k: usize = 0;
    while k < 11
        invariant
            k <= 11,
            first_signal(bytes@) == first_signal_from(bytes@, k as int),
        decreases 11 - k,
    {
        let (_name, needle) = signal(k);
        match find_in(bytes, needle.as_bytes()) {
            Some(i) => {
                return Some((k, i));
            },
            None => {},
        }
        k = k + 1;
    }
    None
}

/// Cuts the excerpt out of `text` for pattern `k` found at byte `idx`.
fn build_hit(text: &str, k: usize, idx: usize) -> (h: AnomalyHit)
    requires
        k < 11,
        occurs_at(text.spec_bytes(), needle_bytes(k as int), idx as int),
    ensures
        h.signal@ == signal_name(k as int),
        h.excerpt@ == excerpt_chars(text.spec_bytes(), idx as int, excerpt_cut(text.spec_bytes(), k as int, idx as int)),
{
    let ghost bytes = text.spec_bytes();
    proof {
        assert(valid_utf8(bytes));
        lemma_match_boundaries(bytes, k as int, idx as int);
    }
    let (name, needle) = signal(k);
    let nlen = needle.as_bytes().len();
    let len = text.as_bytes().len();
    let raw: usize = if len - idx - nlen >= 48 { idx + nlen + 48 } else { len };
    assert(raw as int == excerpt_end(len as int, idx as int, nlen as int));
    let mut end: usize = raw;
    while end > idx && !text.is_char_boundary(end)
        invariant
            idx <= end <= raw <= len,
            len == bytes.len(),
            bytes == text.spec_bytes(),
            boundary_floor(bytes, idx as int, end as int) == boundary_floor(bytes, idx as int, raw as int),
        decreases end,
    {
        end = end - 1;
    }
    proof {
        lemma_boundary_floor(bytes, idx as int, raw as int, idx as int);
        assert(end as int == boundary_floor(bytes, idx as int, raw as int));
        assert(is_char_boundary(bytes, end as int));
    }
    let (_before, rest) = text.split_at(idx);
    proof {
        let r = bytes.subrange(idx as int, bytes.len() as int);
        assert(rest.spec_bytes() == r);
        assert(valid_utf8(r));
        if (end as int) < bytes.len() {
            assert(r[end - idx] == bytes[end as int]);
            assert(is_char_boundary(r, end - idx)) by {
                assert(is_char_boundary(bytes, end as int) <==> !is_continuation_byte(bytes[end as int]));
                assert(is_char_boundary(r, end - idx) <==> !is_continuation_byte(r[end - idx]));
            }
        } else {
            assert(r.len() == end - idx);
            assert(is_char_boundary(r, r.len() as int));
        }
    }
    let (piece, _after) = rest.split_at(end - idx);
    proof {
        assert(piece.spec_bytes() =~= bytes.subrange(idx as int, end as int));
        assert(decode_utf8(encode_utf8(piece@)) == piece@);
    }
    let count = piece.unicode_len();
    let take: usize = if count <= 80 { count } else { 80 };
    let chosen = piece.substring_char(0, take);
    proof {
        if count <= 80 {
            assert(piece@.subrange(0, take as int) =~= piece@);
        }
    }
    AnomalyHit { signal: String::from_str(name), excerpt: chosen.to_owned() }
}

/// Scans a response text for known error / disclosure patterns. The first
/// pattern in table order that occurs wins; the excerpt starts at its first
/// occurrence and runs 48 bytes past its end (at most to the end of the
/// text, and back to a character boundary where that would split one), cut
/// to 80 characters.
pub fn detect_anomaly_in_text(text: &str) -> (r: Option<AnomalyHit>)
    ensures
        match r {
            None => anomaly_of(text.spec_bytes()) is None,
            Some(h) => anomaly_of(text.spec_bytes()) == Some((h.signal@, h.excerpt@)),
        },
{
    match scan(text.as_bytes()) {
        None => None,
        Some((k, idx)) => {
            proof {
                let hay = text.spec_bytes();
                lemma_first_signal_found(hay, 0, k as int, idx as int);
                lemma_found_occurs(hay, needle_bytes(k as int), idx as int);
            }
            Some(build_hit(text, k, idx))
        },
    }
}

/// A position that [`find_bytes`] reports is an occurrence.
proof fn lemma_found_occurs(hay: Seq<u8>, needle: Seq<u8>, idx: int)
    requires
        find_bytes(hay, needle) == Some(idx),
    ensures
        occurs_at(hay, needle, idx),
{
    assert(exists|i: int| crate::text::is_first_occurrence(hay, needle, i));
}

/// The position that [`first_signal_from`] reports is that of the first
/// occurrence of the pattern it reports.
proof fn lemma_first_signal_found(text: Seq<u8>, from: int, k: int, idx: int)
    requires
        first_signal_from(text, from) == Some((k, idx)),
    ensures
        find_bytes(text, needle_bytes(k)) == Some(idx),
        from <= k < signal_count(),
    decreases signal_count() - from,
{
    if 0 <= from < signal_count() {
        match find_bytes(text, needle_bytes(from)) {
            Some(i) => {},
            None => {
                lemma_first_signal_found(text, from + 1, k, idx);
            },
        }
    }
}

/// Scans a response body (decoded as `String::from_utf8_lossy` does) for
/// known error / disclosure patterns, as [`detect_anomaly_in_text`] does.
pub fn detect_anomaly(body: &[u8]) -> (r: Option<AnomalyHit>)
    ensures
        match r {
            None => body_anomaly(body@) is None,
            Some(h) => body_anomaly(body@) == Some((h.signal@, h.excerpt@)),
        },
        valid_utf8(body@) ==> body_anomaly(body@) == anomaly_of(body@),
{
    let text = lossy_text(body);
    proof {
        if valid_utf8(body@) {
            vstd::utf8::decode_utf8_encode_utf8(body@);
            assert(lossy_bytes(body@) == body@);
        }
    }
    detect_anomaly_in_text(text.as_str())
}

proof fn lemma_none_from(text: Seq<u8>, from: int)
    requires
        0 <= from <= signal_count(),
    ensures
        first_signal_from(text, from) is None <==> forall|k: int| from <= k < signal_count() ==> #[trigger] find_bytes(text, needle_bytes(k)) is None,
    decreases signal_count() - from,
{
    if from < signal_count() {
        lemma_none_from(text, from + 1);
        if first_signal_from(text, from) is None {
            assert forall|k: int| from <= k < signal_count() implies #[trigger] find_bytes(text, needle_bytes(k)) is None by {
                if k > from {
                }
            }
        }
    }
}

/// Pattern `k` occurs somewhere in the text.
pub open spec fn pattern_occurs(text: Seq<u8>, k: int) -> bool {
    exists|i: int| occurs_at(text, needle_bytes(k), i)
}

/// A text yields no anomaly exactly when none of the patterns occurs in it;
/// a reported signal is that of a pattern that occurs.
pub proof fn law_hit_iff_pattern_occurs(text: Seq<u8>)
    ensures
        anomaly_of(text) is None <==> forall|k: int| 0 <= k < signal_count() ==> !#[trigger] pattern_occurs(text, k),
        anomaly_of(text) matches Some(hit) ==> exists|k: int| 0 <= k < signal_count() && #[trigger] pattern_occurs(text, k) && hit.0 == signal_name(k),
{
    lemma_none_from(text, 0);
    assert forall|k: int| 0 <= k < signal_count() implies (#[trigger] find_bytes(text, needle_bytes(k)) is None <==> !pattern_occurs(text, k)) by {
        if exists|i: int| occurs_at(text, needle_bytes(k), i) {
            let i = choose|i: int| occurs_at(text, needle_bytes(k), i);
            crate::text::lemma_occurrence_has_first(text, needle_bytes(k), i);
        }
        match find_bytes(text, needle_bytes(k)) {
            Some(j) => { lemma_found_occurs(text, needle_bytes(k), j); },
            None => {},
        }
    }
    if first_signal(text) is None {
        assert forall|k: int| 0 <= k < signal_count() implies !#[trigger] pattern_occurs(text, k) by {
            assert(find_bytes(text, needle_bytes(k)) is None);
        }
    }
    if forall|k: int| 0 <= k < signal_count() ==> !#[trigger] pattern_occurs(text, k) {
        assert forall|k: int| 0 <= k < signal_count() implies #[trigger] find_bytes(text, needle_bytes(k)) is None by {
            assert(!pattern_occurs(text, k));
        }
    }
    match first_signal(text) {
        Some((k, idx)) => {
            lemma_first_signal_found(text, 0, k, idx);
            lemma_found_occurs(text, needle_bytes(k), idx);
            assert(signal_name(k) == (anomaly_of(text)->0).0);
            assert(pattern_occurs(text, k));
        },
        None => {},
    }
}

/// A flagged text stays flagged when more text surrounds it.
pub proof fn law_flag_survives_context(pre: Seq<u8>, text: Seq<u8>, post: Seq<u8>)
    requires
        anomaly_of(text) is Some,
    ensures
        anomaly_of(pre + text + post) is Some,
{
    law_hit_iff_pattern_occurs(text);
    let k = choose|k: int| 0 <= k < signal_count() && #[trigger] pattern_occurs(text, k);
    let n = needle_bytes(k);
    let i = choose|i: int| occurs_at(text, n, i);
    let big = pre + text + post;
    assert(big.subrange(pre.len() + i, pre.len() + i + n.len()) =~= text.subrange(i, i + n.len()));
    assert(occurs_at(big, n, pre.len() + i));
    assert(pattern_occurs(big, k));
    law_hit_iff_pattern_occurs(big);
}

/// UTF-8 encoding distributes over concatenation.
proof fn lemma_encode_concat(a: Seq<char>, b: Seq<char>)
    ensures
        encode_utf8(a + b) == encode_utf8(a) + encode_utf8(b),
    decreases a.len(),
{
    if a.len() > 0 {
        assert((a + b).drop_first() =~= a.drop_first() + b);
        assert((a + b)[0] == a[0]);
        lemma_encode_concat(a.drop_first(), b);
        assert(encode_utf8(a + b) =~= encode_scalar(a[0] as u32) + (encode_utf8(a.drop_first()) + encode_utf8(b)));
    } else {
        assert(a + b =~= b);
    }
}

/// Every character takes at least one byte.
proof fn lemma_encode_len(a: Seq<char>)
    ensures
        encode_utf8(a).len() >= a.len(),
    decreases a.len(),
{
    if a.len() > 0 {
        lemma_encode_len(a.drop_first());
    }
}

/// A reported excerpt begins with the pattern that fired: in every text,
/// the UTF-8 bytes of the excerpt start with the bytes of the pattern
/// reported by the scan.
pub proof fn law_excerpt_starts_with_pattern(text: Seq<u8>)
    requires
        valid_utf8(text),
        first_signal(text) is Some,
    ensures
        ({
            let (k, idx) = first_signal(text)->0;
            let hit = anomaly_of(text)->0;
            &&& hit.0 == signal_name(k)
            &&& encode_utf8(hit.1).len() >= needle_bytes(k).len()
            &&& encode_utf8(hit.1).subrange(0, needle_bytes(k).len() as int) == needle_bytes(k)
        }),
{
    let (k, idx) = first_signal(text)->0;
    lemma_first_signal_found(text, 0, k, idx);
    lemma_found_occurs(text, needle_bytes(k), idx);
    lemma_match_boundaries(text, k, idx);
    lemma_needle_ascii(k);
    let nlen = needle_bytes(k).len() as int;
    let raw = excerpt_end(text.len() as int, idx, nlen);
    lemma_boundary_floor(text, idx, raw, idx + nlen);
    let end = excerpt_cut(text, k, idx);
    assert(idx + nlen <= end <= text.len());
    lemma_boundary_floor(text, idx, raw, idx);
    assert(is_char_boundary(text, idx) && is_char_boundary(text, end));
    let tail = text.subrange(idx, text.len() as int);
    assert(valid_utf8(tail));
    if end < text.len() {
        assert(tail[end - idx] == text[end]);
        assert(is_char_boundary(text, end) <==> !is_continuation_byte(text[end]));
        assert(is_char_boundary(tail, end - idx) <==> !is_continuation_byte(tail[end - idx]));
    } else {
        assert(tail.len() == end - idx);
    }
    assert(is_char_boundary(tail, end - idx));
    let sub = tail.subrange(0, end - idx);
    assert(sub =~= text.subrange(idx, end));
    assert(valid_utf8(sub));
    let chars = decode_utf8(sub);
    assert(encode_utf8(chars) == sub);
    assert(sub.subrange(0, nlen) =~= needle_bytes(k)) by {
        assert(text.subrange(idx, idx + nlen) == needle_bytes(k));
        assert forall|j: int| 0 <= j < nlen implies sub.subrange(0, nlen)[j] == text.subrange(idx, idx + nlen)[j] by {
        }
    }
    if chars.len() > 80 {
        let head = chars.take(80);
        assert(chars =~= head + chars.skip(80));
        lemma_encode_concat(head, chars.skip(80));
        lemma_encode_len(head);
        let e = encode_utf8(head);
        assert(e.len() >= 80);
        assert forall|j: int| 0 <= j < nlen implies e.subrange(0, nlen)[j] == needle_bytes(k)[j] by {
            assert(e[j] == (e + encode_utf8(chars.skip(80)))[j]);
            assert(sub[j] == sub.subrange(0, nlen)[j]);
        }
        assert(e.subrange(0, nlen) =~= needle_bytes(k));
    }
}

/// For every response body, a reported excerpt begins with a pattern of the
/// reported signal that occurs in the body's lossy UTF-8 text: the UTF-8 bytes
/// of the excerpt start with the bytes of that pattern.
pub proof fn law_body_excerpt_starts_with_pattern(body: Seq<u8>)
    ensures
        body_anomaly(body) matches Some(hit) ==> exists|k: int| 0 <= k < signal_count() && hit.0 == signal_name(k)
            && #[trigger] pattern_occurs(lossy_bytes(body), k)
            && encode_utf8(hit.1).len() >= needle_bytes(k).len()
            && encode_utf8(hit.1).subrange(0, needle_bytes(k).len() as int) == needle_bytes(k),
{
    let text = lossy_bytes(body);
    vstd::utf8::encode_utf8_valid_utf8(lossy_chars(body));
    if first_signal(text) is Some {
        law_excerpt_starts_with_pattern(text);
        let (k, idx) = first_signal(text)->0;
        lemma_first_signal_found(text, 0, k, idx);
        lemma_found_occurs(text, needle_bytes(k), idx);
        assert(pattern_occurs(text, k));
    }
}

/// Every byte is ASCII.
pub open spec fn ascii_bytes(b: Seq<u8>) -> bool {
    forall|i: int| 0 <= i < b.len() ==> b[i] < 0x80
}

/// ASCII bytes are valid UTF-8.
proof fn lemma_ascii_valid(b: Seq<u8>)
    requires
        ascii_bytes(b),
    ensures
        valid_utf8(b),
    decreases b.len(),
{
    if b.len() > 0 {
        assert(valid_first_scalar(b));
        let rest = pop_first_scalar(b);
        assert(rest =~= b.subrange(1, b.len() as int));
        lemma_ascii_valid(rest);
    }
}

/// A flagged response body of ASCII bytes stays flagged when more ASCII bytes
/// surround it.
pub proof fn law_body_flag_survives_context(pre: Seq<u8>, body: Seq<u8>, post: Seq<u8>)
    requires
        ascii_bytes(pre),
        ascii_bytes(body),
        ascii_bytes(post),
        body_anomaly(body) is Some,
    ensures
        body_anomaly(pre + body + post) is Some,
{
    let all = pre + body + post;
    assert(ascii_bytes(all)) by {
        assert forall|i: int| 0 <= i < all.len() implies all[i] < 0x80 by {
            if i < pre.len() {
                assert(all[i] == pre[i]);
            } else if i < pre.len() + body.len() {
                assert(all[i] == body[i - pre.len()]);
            } else {
                assert(all[i] == post[i - pre.len() - body.len()]);
            }
        }
    }
    lemma_ascii_valid(body);
    lemma_ascii_valid(all);
    vstd::utf8::decode_utf8_encode_utf8(body);
    vstd::utf8::decode_utf8_encode_utf8(all);
    law_flag_survives_context(pre, body, post);
}

/// The UTF-8 bytes of `needle` occur somewhere in `text`.
pub open spec fn text_contains(text: Seq<u8>, needle: Seq<char>) -> bool {
    exists|i: int| 0 <= i && i + encode_utf8(needle).len() <= text.len()
        && #[trigger] text.subrange(i, i + encode_utf8(needle).len()) == encode_utf8(needle)
}

/// One of the database error strings occurs in the text.
pub open spec fn has_database_error(text: Seq<u8>) -> bool {
    text_contains(text, "SQLSTATE["@) || text_contains(text, "SQL syntax"@) || text_contains(text, "mysql_fetch"@)
        || text_contains(text, "ORA-"@) || text_contains(text, "PostgreSQL"@)
        || text_contains(text, "sqlite3.OperationalError"@)
}

/// One of the stack trace markers occurs in the text.
pub open spec fn has_stack_trace(text: Seq<u8>) -> bool {
    text_contains(text, "Traceback (most recent call last)"@) || text_contains(text, "Exception in thread"@)
        || text_contains(text, " at java."@)
}

/// One of the debug page markers occurs in the text.
pub open spec fn has_debug_disclosure(text: Seq<u8>) -> bool {
    text_contains(text, "phpinfo()"@) || text_contains(text, "ASP.NET is configured"@)
}

proof fn lemma_contains_iff_occurs(text: Seq<u8>, k: int)
    requires
        0 <= k < signal_count(),
    ensures
        text_contains(text, signal_needle(k)) <==> pattern_occurs(text, k),
{
    let n = needle_bytes(k);
    if text_contains(text, signal_needle(k)) {
        let i = choose|i: int| 0 <= i && i + n.len() <= text.len() && #[trigger] text.subrange(i, i + n.len()) == n;
        assert(occurs_at(text, n, i));
    }
    if pattern_occurs(text, k) {
        let i = choose|i: int| occurs_at(text, n, i);
        assert(text.subrange(i, i + n.len()) == n);
    }
}

/// The scan from `from` reports a pattern no later in the table than any
/// pattern that occurs.
proof fn lemma_first_is_least(text: Seq<u8>, from: int, j: int)
    requires
        0 <= from <= j < signal_count(),
        pattern_occurs(text, j),
    ensures
        first_signal_from(text, from) matches Some((k, _)) && k <= j,
    decreases j - from,
{
    match find_bytes(text, needle_bytes(from)) {
        Some(_) => {},
        None => {
            if from == j {
                let i = choose|i: int| occurs_at(text, needle_bytes(j), i);
                crate::text::lemma_occurrence_has_first(text, needle_bytes(j), i);
                assert(false);
            }
            lemma_first_is_least(text, from + 1, j);
        },
    }
}

/// Which signal a text reports is decided by the kind of pattern that occurs
/// in it: any database error string (`SQLSTATE[`, `SQL syntax`,
/// `mysql_fetch`, `ORA-`, `PostgreSQL`, `sqlite3.OperationalError`) reports
/// "database_error_string"; else any stack trace marker (`Traceback (most
/// recent call last)`, `Exception in thread`, ` at java.`) reports
/// "stack_trace"; else any debug page marker (`phpinfo()`, `ASP.NET is
/// configured`) reports "debug_disclosure"; a text with none of them reports
/// nothing.
pub proof fn law_signal_of_pattern(text: Seq<u8>)
    ensures
        has_database_error(text) ==> (anomaly_of(text) matches Some(h) && h.0 == "database_error_string"@),
        !has_database_error(text) && has_stack_trace(text) ==> (anomaly_of(text) matches Some(h) && h.0 == "stack_trace"@),
        !has_database_error(text) && !has_stack_trace(text) && has_debug_disclosure(text)
            ==> (anomaly_of(text) matches Some(h) && h.0 == "debug_disclosure"@),
        !has_database_error(text) && !has_stack_trace(text) && !has_debug_disclosure(text) ==> anomaly_of(text) is None,
{
    assert forall|k: int| 0 <= k < signal_count() implies (text_contains(text, signal_needle(k)) <==> #[trigger] pattern_occurs(text, k)) by {
        lemma_contains_iff_occurs(text, k);
    }
    assert(signal_needle(0) == "SQLSTATE["@ && signal_needle(1) == "SQL syntax"@ && signal_needle(2) == "mysql_fetch"@);
    assert(signal_needle(3) == "ORA-"@ && signal_needle(4) == "PostgreSQL"@ && signal_needle(5) == "sqlite3.OperationalError"@);
    assert(signal_needle(6) == "Traceback (most recent call last)"@ && signal_needle(7) == "Exception in thread"@);
    assert(signal_needle(8) == " at java."@ && signal_needle(9) == "phpinfo()"@ && signal_needle(10) == "ASP.NET is configured"@);
    assert(has_database_error(text) <==> exists|k: int| 0 <= k < 6 && #[trigger] pattern_occurs(text, k)) by {
        if has_database_error(text) {
            if pattern_occurs(text, 0) {} else if pattern_occurs(text, 1) {} else if pattern_occurs(text, 2) {}
            else if pattern_occurs(text, 3) {} else if pattern_occurs(text, 4) {} else { assert(pattern_occurs(text, 5)); }
        }
        if exists|k: int| 0 <= k < 6 && #[trigger] pattern_occurs(text, k) {
            let k = choose|k: int| 0 <= k < 6 && #[trigger] pattern_occurs(text, k);
            if k == 0 {} else if k == 1 {} else if k == 2 {} else if k == 3 {} else if k == 4 {} else {}
        }
    }
    assert(has_stack_trace(text) <==> exists|k: int| 6 <= k < 9 && #[trigger] pattern_occurs(text, k)) by {
        if has_stack_trace(text) {
            if pattern_occurs(text, 6) {} else if pattern_occurs(text, 7) {} else { assert(pattern_occurs(text, 8)); }
        }
        if exists|k: int| 6 <= k < 9 && #[trigger] pattern_occurs(text, k) {
            let k = choose|k: int| 6 <= k < 9 && #[trigger] pattern_occurs(text, k);
            if k == 6 {} else if k == 7 {} else {}
        }
    }
    assert(has_debug_disclosure(text) <==> exists|k: int| 9 <= k < 11 && #[trigger] pattern_occurs(text, k)) by {
        if has_debug_disclosure(text) {
            if pattern_occurs(text, 9) {} else { assert(pattern_occurs(text, 10)); }
        }
        if exists|k: int| 9 <= k < 11 && #[trigger] pattern_occurs(text, k) {
            let k = choose|k: int| 9 <= k < 11 && #[trigger] pattern_occurs(text, k);
            if k == 9 {} else {}
        }
    }
    law_hit_iff_pattern_occurs(text);
    match first_signal(text) {
        Some((k, idx)) => {
            lemma_first_signal_found(text, 0, k, idx);
            lemma_found_occurs(text, needle_bytes(k), idx);
            assert(pattern_occurs(text, k));
            if has_database_error(text) {
                let j = choose|j: int| 0 <= j < 6 && #[trigger] pattern_occurs(text, j);
                lemma_first_is_least(text, 0, j);
            } else if has_stack_trace(text) {
                let j = choose|j: int| 6 <= j < 9 && #[trigger] pattern_occurs(text, j);
                lemma_first_is_least(text, 0, j);
            } else if has_debug_disclosure(text) {
                let j = choose|j: int| 9 <= j < 11 && #[trigger] pattern_occurs(text, j);
                lemma_first_is_least(text, 0, j);
            }
        },
        None => {},
    }
}

/// The excerpt's byte window runs 48 bytes past the end of the match, or to
/// the end of the text when that comes first, and an excerpt holds at most 80
/// characters.
pub proof fn law_excerpt_window(text: Seq<u8>, len: int, idx: int, nlen: int, end: int)
    ensures
        idx + nlen + 48 <= len ==> excerpt_end(len, idx, nlen) == idx + nlen + 48,
        idx + nlen + 48 > len ==> excerpt_end(len, idx, nlen) == len,
        excerpt_chars(text, idx, end).len() <= 80,
{
}

} // verus!
