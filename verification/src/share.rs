//! Point tokens: the `#s=` payload of the web app's long share links, which
//! is the base64url (no padding) of the point's JSON. The JSON itself is
//! written and read by the caller; this is the token around it: finding the
//! payload in whatever was pasted, and the base64url step both ways.

use base64::engine::general_purpose::URL_SAFE_NO_PAD;
use base64::Engine;
use vstd::prelude::*;

use crate::text::{
    contains, find, first_index, lemma_first_index_is, match_at, occurs_at, starts_with, sub_chars,
    to_chars, trim, trim_bounds,
};

verus! {

/// What base64url without padding makes of `bytes`.
pub uninterp spec fn base64url_encoded(bytes: Seq<u8>) -> Seq<char>;

/// What base64url without padding (canonical: no padding, no stray bits)
/// reads from `text`, or `None` where it refuses it.
pub uninterp spec fn base64url_decoded(text: Seq<char>) -> Option<Seq<u8>>;

/// The URL-safe base64 alphabet: `A`–`Z`, `a`–`z`, `0`–`9`, `-` and `_`.
pub open spec fn is_base64url_char(c: char) -> bool {
    ('A' <= c && c <= 'Z') || ('a' <= c && c <= 'z') || ('0' <= c && c <= '9') || c == '-' || c
        == '_'
}

/// `base64::engine::general_purpose::URL_SAFE_NO_PAD.encode`: the result is
/// named; the crate's alphabet says every character is URL-safe, and
/// decoding with the same engine gives the bytes back.
#[verifier::external_body]
fn base64url_encode(bytes: &[u8]) -> (r: String)
    requires
        bytes@.len() <= usize::MAX / 2,
    ensures
        r@ == base64url_encoded(bytes@),
        forall|i: int| 0 <= i < r@.len() ==> is_base64url_char(#[trigger] r@[i]),
        base64url_decoded(r@) == Some(bytes@),
{
    URL_SAFE_NO_PAD.encode(bytes)
}

/// `base64::engine::general_purpose::URL_SAFE_NO_PAD.decode`: the result is
/// named; its error becomes `None`.
#[verifier::external_body]
fn base64url_decode(text: &str) -> (r: Option<Vec<u8>>)
    ensures
        match r {
            Some(v) => base64url_decoded(text@) == Some(v@),
            None => base64url_decoded(text@) is None,
        },
{
    URL_SAFE_NO_PAD.decode(text).ok()
}

/// Where a payload ends: at the first `&` or space.
pub open spec fn is_sep(c: char) -> bool {
    c == '&' || c == ' '
}

/// The index of the first separator in `s`, or its length.
pub open spec fn sep_end(s: Seq<char>) -> int {
    if exists|i: int| 0 <= i < s.len() && is_sep(s[i]) {
        choose|i: int| 0 <= i < s.len() && is_sep(s[i]) && forall|j: int| 0 <= j < i ==> !is_sep(s[j])
    } else {
        s.len() as int
    }
}

/// What follows the `#s=` marker, or the `s=` prefix, or the whole text.
pub open spec fn after_marker(t: Seq<char>) -> Seq<char> {
    if contains(t, "#s="@) {
        t.skip(first_index(t, "#s="@) + 3)
    } else if starts_with(t, "s="@) {
        t.skip(2)
    } else {
        t
    }
}

/// The token inside whatever was pasted: a bare token, `s=…`, `#s=…`, or a
/// whole link with `#s=` in it, trimmed, up to the next `&` or space.
pub open spec fn token_payload(s: Seq<char>) -> Seq<char> {
    let rest = after_marker(trim(s));
    rest.take(sep_end(rest))
}

/// The bytes a pasted token carries, if it is one.
pub open spec fn token_decoded(s: Seq<char>) -> Option<Seq<u8>> {
    base64url_decoded(token_payload(s))
}

pub open spec fn bytes_of(r: Option<Vec<u8>>) -> Option<Seq<u8>> {
    match r {
        Some(v) => Some(v@),
        None => None,
    }
}

proof fn lemma_sep_end_is(s: Seq<char>, k: int)
    requires
        0 <= k <= s.len(),
        forall|j: int| 0 <= j < k ==> !is_sep(s[j]),
        k < s.len() ==> is_sep(s[k]),
    ensures
        sep_end(s) == k,
{
    if k < s.len() {
        assert(exists|i: int| 0 <= i < s.len() && is_sep(s[i]));
        let c = sep_end(s);
        assert(0 <= c < s.len() && is_sep(s[c]) && forall|j: int| 0 <= j < c ==> !is_sep(s[j]));
        if c < k {
            assert(!is_sep(s[c]));
        }
        if k < c {
            assert(!is_sep(s[k]));
        }
    } else {
        assert(!exists|i: int| 0 <= i < s.len() && is_sep(s[i]));
    }
}

/// Where the token starts in trimmed text `t`.
fn marker_start(t: &[char]) -> (r: usize)
    ensures
        r <= t@.len(),
        t@.skip(r as int) == after_marker(t@),
{
    let marker = to_chars("#s=");
    let prefix = to_chars("s=");
    let n = t.len();
    proof {
        reveal_strlit("#s=");
        reveal_strlit("s=");
    }
    match find(t, marker.as_slice()) {
        Some(i) => {
            proof {
                assert(marker@.len() == 3);
                lemma_first_index_is(t@, marker@, i as int);
            }
            i + 3
        },
        None => {
            if match_at(t, prefix.as_slice(), 0) {
                2
            } else {
                proof {
                    assert(t@.skip(0) =~= t@);
                }
                0
            }
        },
    }
}

/// Where the token ends: the first separator at or after `start`, or the end.
fn sep_stop(t: &[char], start: usize) -> (r: usize)
    requires
        start <= t@.len(),
    ensures
        start <= r <= t@.len(),
        r - start == sep_end(t@.skip(start as int)),
{
    let n = t.len();
    let mut end = start;
    while end < n && t[end] != '&' && t[end] != ' '
        invariant
            n == t@.len(),
            start <= end <= n,
            forall|j: int| start <= j < end ==> !is_sep(t@[j]),
        decreases n - end,
    {
        end = end + 1;
    }
    proof {
        lemma_sep_end_is(t@.skip(start as int), end - start);
    }
    end
}

/// The payload is the span of the pasted text from `a + start` to
/// `a + end`, where `a..b` is its trimmed part, `start` where the token starts
/// in it and `end` where it stops.
proof fn lemma_payload_span(s: Seq<char>, a: int, b: int, start: int, end: int)
    requires
        0 <= a <= b <= s.len(),
        s.subrange(a, b) == trim(s),
        0 <= start <= end <= b - a,
        trim(s).skip(start) == after_marker(trim(s)),
        end - start == sep_end(trim(s).skip(start)),
    ensures
        s.subrange(a + start, a + end) == token_payload(s),
{
    let rest = after_marker(trim(s));
    assert(s.subrange(a + start, a + end) =~= rest.take(end - start));
}

/// Decodes a token, or the whole link it was pasted from, into the bytes it
/// carries (the point's JSON).
pub fn decode_token(token: &str) -> (r: Option<Vec<u8>>)
    ensures
        bytes_of(r) == token_decoded(token@),
{
    let cs = to_chars(token);
    let (a, b) = trim_bounds(cs.as_slice());
    let t = sub_chars(cs.as_slice(), a, b);
    let start = marker_start(t.as_slice());
    let end = sep_stop(t.as_slice(), start);
    proof {
        lemma_payload_span(cs@, a as int, b as int, start as int, end as int);
    }
    let payload = token.substring_char(a + start, a + end);
    base64url_decode(payload)
}

/// Encodes a point's JSON as the token a web link would carry. Pasted back
/// on its own, after `#s=`, or inside a link, the token gives the same bytes.
pub fn encode_token(json: &[u8]) -> (r: String)
    requires
        json@.len() <= usize::MAX / 2,
    ensures
        r@ == base64url_encoded(json@),
        token_decoded(r@) == Some(json@),
        forall|p: Seq<char>, q: Seq<char>|
            !contains(p, "#s="@) && (q.len() == 0 || is_sep(q[0])) ==> token_decoded(
                #[trigger] (p + "#s="@ + r@ + q),
            ) == Some(json@),
{
    let r = base64url_encode(json);
    proof {
        lemma_payload_of_bare_token(r@);
        assert forall|p: Seq<char>, q: Seq<char>|
            !contains(p, "#s="@) && (q.len() == 0 || is_sep(q[0])) implies token_decoded(
                #[trigger] (p + "#s="@ + r@ + q),
            ) == Some(json@) by {
            lemma_payload_in_link(p, r@, q);
        }
    }
    r
}

/// Trimming a link with the token in it only eats into its two ends.
proof fn lemma_link_trim(p: Seq<char>, t: Seq<char>, q: Seq<char>) -> (r: (int, int))
    requires
        forall|i: int| 0 <= i < t.len() ==> is_base64url_char(#[trigger] t[i]),
    ensures
        0 <= r.0 <= p.len(),
        0 <= r.1 <= q.len(),
        crate::text::trim(p + "#s="@ + t + q) == p.skip(r.0) + "#s="@ + t + q.take(q.len() - r.1),
{
    reveal_strlit("#s=");
    let m = "#s="@;
    let s = p + m + t + q;
    let np = p.len() as int;
    let nt = t.len() as int;
    let nq = q.len() as int;
    assert(s[np] == '#');
    crate::text::lemma_lead_white_bounds(s);
    crate::text::lemma_trail_white_bounds(s);
    let lw = crate::text::lead_white(s) as int;
    let tw = crate::text::trail_white(s) as int;
    assert(lw <= np) by {
        if lw > np {
            assert(crate::text::is_white(s[np]));
        }
    }
    let last_fixed = np + 2 + nt;
    assert(!crate::text::is_white(s[last_fixed])) by {
        if nt > 0 {
            assert(s[last_fixed] == t[nt - 1]);
            assert(is_base64url_char(t[nt - 1]));
        } else {
            assert(s[last_fixed] == '=');
        }
    }
    assert(tw <= nq) by {
        if tw > nq {
            assert(s.len() - tw <= last_fixed);
            assert(crate::text::is_white(s[last_fixed]));
        }
    }
    assert(crate::text::trim(s) =~= p.skip(lw) + m + t + q.take(nq - tw));
    (lw, tw)
}

/// When the text before `#s=` holds no `#s=`, the marker found is that one.
proof fn lemma_link_marker(pp: Seq<char>, t: Seq<char>, qq: Seq<char>)
    requires
        !contains(pp, "#s="@),
    ensures
        after_marker(pp + "#s="@ + t + qq) == t + qq,
{
    reveal_strlit("#s=");
    let m = "#s="@;
    let tr = pp + m + t + qq;
    let k = pp.len() as int;
    assert(tr[k] == '#');
    assert(crate::text::occurs_at(tr, m, k)) by {
        assert(tr.subrange(k, k + 3) =~= m);
    }
    assert forall|j: int| 0 <= j < k implies !crate::text::occurs_at(tr, m, j) by {
        if crate::text::occurs_at(tr, m, j) {
            if j + 3 <= k {
                assert(pp.subrange(j, j + 3) =~= tr.subrange(j, j + 3));
                assert(crate::text::occurs_at(pp, m, j));
            } else if j == k - 1 {
                assert(tr.subrange(j, j + 3)[1] == tr[k]);
            } else {
                assert(j == k - 2);
                assert(tr.subrange(j, j + 3)[2] == tr[k]);
            }
        }
    }
    lemma_first_index_is(tr, m, k);
    assert(tr.skip(k + 3) =~= t + qq);
}

/// A suffix of a text without `#s=` has none either.
proof fn lemma_suffix_no_marker(p: Seq<char>, k: int)
    requires
        0 <= k <= p.len(),
        !contains(p, "#s="@),
    ensures
        !contains(p.skip(k), "#s="@),
{
    let m = "#s="@;
    if contains(p.skip(k), m) {
        let i = choose|i: int| crate::text::occurs_at(p.skip(k), m, i);
        assert(p.subrange(i + k, i + k + m.len()) =~= p.skip(k).subrange(i, i + m.len()));
        assert(crate::text::occurs_at(p, m, i + k));
    }
}

/// The token stops where the separator after it starts.
proof fn lemma_link_cut(t: Seq<char>, qq: Seq<char>)
    requires
        forall|i: int| 0 <= i < t.len() ==> is_base64url_char(#[trigger] t[i]),
        qq.len() == 0 || is_sep(qq[0]),
    ensures
        (t + qq).take(sep_end(t + qq)) == t,
{
    let rest = t + qq;
    let nt = t.len() as int;
    assert forall|j: int| 0 <= j < nt implies !is_sep(rest[j]) by {
        assert(rest[j] == t[j]);
        assert(is_base64url_char(t[j]));
    }
    if nt < rest.len() {
        assert(rest[nt] == qq[0]);
    }
    lemma_sep_end_is(rest, nt);
    assert(rest.take(nt) =~= t);
}

/// Inside a link, the token is what follows the first `#s=`, up to the
/// next `&` or space.
proof fn lemma_payload_in_link(p: Seq<char>, t: Seq<char>, q: Seq<char>)
    requires
        forall|i: int| 0 <= i < t.len() ==> is_base64url_char(#[trigger] t[i]),
        !contains(p, "#s="@),
        q.len() == 0 || is_sep(q[0]),
    ensures
        token_payload(p + "#s="@ + t + q) == t,
{
    let (lw, tw) = lemma_link_trim(p, t, q);
    let pp = p.skip(lw);
    let qq = q.take(q.len() - tw);
    lemma_suffix_no_marker(p, lw);
    lemma_link_marker(pp, t, qq);
    if qq.len() > 0 {
        assert(qq[0] == q[0]);
    }
    lemma_link_cut(t, qq);
}

/// A bare token is its own payload.
proof fn lemma_payload_of_bare_token(t: Seq<char>)
    requires
        forall|i: int| 0 <= i < t.len() ==> is_base64url_char(#[trigger] t[i]),
    ensures
        token_payload(t) == t,
{
    reveal_strlit("#s=");
    reveal_strlit("s=");
    crate::text::lemma_lead_white_is(t, 0);
    crate::text::lemma_trail_white_is(t, 0);
    assert(trim(t) =~= t) by {
        if t.len() > 0 {
            assert(!crate::text::is_white(t[0]));
        }
    }
    assert(!contains(t, "#s="@)) by {
        if contains(t, "#s="@) {
            let i = choose|i: int| occurs_at(t, "#s="@, i);
            assert(t.subrange(i, i + 3)[0] == '#');
            assert(t[i] == '#');
        }
    }
    assert(!starts_with(t, "s="@)) by {
        if starts_with(t, "s="@) {
            assert(t.subrange(0, 2)[1] == '=');
            assert(t[1] == '=');
        }
    }
    lemma_sep_end_is(t, t.len() as int);
    assert(t.take(t.len() as int) =~= t);
}

} // verus!
