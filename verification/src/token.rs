//! Anti-forgery token extraction from an HTML body.
//!
//! Two strategies, in order. The markup scan looks for a known element name
//! attribute (`name="<marker>"`, with either quote style) and returns the text
//! of the `value` attribute inside the same tag. The fallback scan looks for a
//! bare marker occurrence and returns the next double-quoted literal after it.
//! Extraction fails only when every attempt fails.

use vstd::prelude::*;
use vstd::string::StringSliceAdditionalSpecFns;

use crate::bytes::{append_bytes, find, find_spec, lemma_find_spec_first, match_at, rfind_byte, rfind_byte_spec, subrange_vec};
use crate::errors::SessionError;

verus! {

/// The token marker used in hidden form inputs.
pub open spec fn marker_rvt() -> Seq<u8> {
    "__RequestVerificationToken".spec_bytes()
}

/// The token marker used as a header name and in meta elements.
pub open spec fn marker_header() -> Seq<u8> {
    "X-Skedda-RequestVerificationToken".spec_bytes()
}

/// The token marker used in meta elements of the session page.
pub open spec fn marker_csrf() -> Seq<u8> {
    "csrf-token".spec_bytes()
}

/// The `name` attribute pattern for a marker, in one quote style.
pub open spec fn name_attr_spec(marker: Seq<u8>, dq: bool) -> Seq<u8> {
    if dq {
        "name=\"".spec_bytes() + marker + "\"".spec_bytes()
    } else {
        "name='".spec_bytes() + marker + "'".spec_bytes()
    }
}

/// The `value` attribute opener, in one quote style.
pub open spec fn value_attr_spec(dq: bool) -> Seq<u8> {
    if dq {
        "value=\"".spec_bytes()
    } else {
        "value='".spec_bytes()
    }
}

/// The quote byte of a quote style.
pub open spec fn quote_of(dq: bool) -> u8 {
    if dq {
        34u8
    } else {
        39u8
    }
}

/// One markup attempt: the first occurrence of the marker's `name` attribute,
/// then — within the same tag, from its opening `<` (or the body's start) to
/// the next `>` — the first `value` opener, whose quoted text is the token.
/// The value attribute may stand on either side of the name attribute.
pub open spec fn markup_attempt_spec(h: Seq<u8>, marker: Seq<u8>, dq: bool) -> Option<Seq<u8>> {
    let name_pat = name_attr_spec(marker, dq);
    let value_pat = value_attr_spec(dq);
    match find_spec(h, name_pat, 0) {
        None => None,
        Some(j) => {
            let after = j + name_pat.len();
            let tag_start = match rfind_byte_spec(h, 60u8, j) {
                Some(t) => t,
                None => 0,
            };
            match find_spec(h, seq![62u8], after) {
                None => None,
                Some(end) => match find_spec(h, value_pat, tag_start) {
                    None => None,
                    Some(k) => if k > end {
                        None
                    } else {
                        match find_spec(h, seq![quote_of(dq)], k + value_pat.len()) {
                            None => None,
                            Some(q) => Some(h.subrange(k + value_pat.len(), q)),
                        }
                    },
                },
            }
        },
    }
}

/// One fallback attempt: the first occurrence of the bare marker, then the
/// text between the next two double quotes after it.
pub open spec fn fallback_attempt_spec(h: Seq<u8>, marker: Seq<u8>) -> Option<Seq<u8>> {
    match find_spec(h, marker, 0) {
        None => None,
        Some(j) => match find_spec(h, seq![34u8], j + marker.len()) {
            None => None,
            Some(q1) => match find_spec(h, seq![34u8], q1 + 1) {
                None => None,
                Some(q2) => Some(h.subrange(q1 + 1, q2)),
            },
        },
    }
}

/// The whole extraction: markup attempts over the fixed marker list, in both
/// quote styles, then the fallback scans, in order. Markup precedes fallback.
pub open spec fn extract_token_spec(h: Seq<u8>) -> Option<Seq<u8>> {
    if markup_attempt_spec(h, marker_rvt(), true) is Some {
        markup_attempt_spec(h, marker_rvt(), true)
    } else if markup_attempt_spec(h, marker_rvt(), false) is Some {
        markup_attempt_spec(h, marker_rvt(), false)
    } else if markup_attempt_spec(h, marker_header(), true) is Some {
        markup_attempt_spec(h, marker_header(), true)
    } else if markup_attempt_spec(h, marker_header(), false) is Some {
        markup_attempt_spec(h, marker_header(), false)
    } else if markup_attempt_spec(h, marker_csrf(), true) is Some {
        markup_attempt_spec(h, marker_csrf(), true)
    } else if markup_attempt_spec(h, marker_csrf(), false) is Some {
        markup_attempt_spec(h, marker_csrf(), false)
    } else if fallback_attempt_spec(h, marker_header()) is Some {
        fallback_attempt_spec(h, marker_header())
    } else {
        fallback_attempt_spec(h, marker_rvt())
    }
}

/// Builds the `name` attribute pattern of a marker in one quote style.
fn name_attr_pattern(marker: &[u8], dq: bool) -> (r: Vec<u8>)
    ensures
        r@ == name_attr_spec(marker@, dq),
{
    let mut v: Vec<u8> = Vec::new();
    if dq {
        append_bytes(&mut v, "name=\"".as_bytes());
        append_bytes(&mut v, marker);
        append_bytes(&mut v, "\"".as_bytes());
    } else {
        append_bytes(&mut v, "name='".as_bytes());
        append_bytes(&mut v, marker);
        append_bytes(&mut v, "'".as_bytes());
    }
    assert(v@ =~= name_attr_spec(marker@, dq));
    v
}

/// Builds the `value` attribute opener in one quote style.
fn value_attr_pattern(dq: bool) -> (r: Vec<u8>)
    ensures
        r@ == value_attr_spec(dq),
{
    let mut v: Vec<u8> = Vec::new();
    if dq {
        append_bytes(&mut v, "value=\"".as_bytes());
    } else {
        append_bytes(&mut v, "value='".as_bytes());
    }
    assert(v@ =~= value_attr_spec(dq));
    v
}

/// A single-byte pattern.
fn byte_pattern(b: u8) -> (r: Vec<u8>)
    ensures
        r@ == seq![b],
{
    let mut v: Vec<u8> = Vec::new();
    v.push(b);
    assert(v@ =~= seq![b]);
    v
}

/// Runs one markup attempt on the body, as `markup_attempt_spec` says.
fn markup_attempt(h: &[u8], marker: &[u8], dq: bool) -> (r: Option<Vec<u8>>)
    ensures
        match r {
            Some(v) => markup_attempt_spec(h@, marker@, dq) == Some(v@),
            None => markup_attempt_spec(h@, marker@, dq) is None,
        },
{
    let name_pat = name_attr_pattern(marker, dq);
    let value_pat = value_attr_pattern(dq);
    let quote: u8 = if dq { 34 } else { 39 };
    let gt = byte_pattern(62);
    let quote_pat = byte_pattern(quote);
    let j = match find(h, name_pat.as_slice(), 0) {
        None => {
            return None;
        },
        Some(j) => j,
    };
    proof {
        lemma_find_spec_first(h@, name_pat@, 0);
        assert(h.len() == h@.len());
        assert(j + name_pat@.len() <= h@.len());
    }
    let after = j + name_pat.len();
    let tag_start = match rfind_byte(h, 60, j) {
        Some(t) => t,
        None => 0,
    };
    let end = match find(h, gt.as_slice(), after) {
        None => {
            return None;
        },
        Some(end) => end,
    };
    let k = match find(h, value_pat.as_slice(), tag_start) {
        None => {
            return None;
        },
        Some(k) => k,
    };
    if k > end {
        return None;
    }
    proof {
        lemma_find_spec_first(h@, value_pat@, tag_start as int);
        assert(h.len() == h@.len());
        assert(k + value_pat@.len() <= h@.len());
    }
    let vstart = k + value_pat.len();
    let q = match find(h, quote_pat.as_slice(), vstart) {
        None => {
            return None;
        },
        Some(q) => q,
    };
    proof {
        lemma_find_spec_first(h@, quote_pat@, vstart as int);
    }
    Some(subrange_vec(h, vstart, q))
}

/// Runs one fallback attempt on the body, as `fallback_attempt_spec` says.
fn fallback_attempt(h: &[u8], marker: &[u8]) -> (r: Option<Vec<u8>>)
    ensures
        match r {
            Some(v) => fallback_attempt_spec(h@, marker@) == Some(v@),
            None => fallback_attempt_spec(h@, marker@) is None,
        },
{
    let dq = byte_pattern(34);
    let j = match find(h, marker, 0) {
        None => {
            return None;
        },
        Some(j) => j,
    };
    proof {
        lemma_find_spec_first(h@, marker@, 0);
        assert(h.len() == h@.len());
        assert(j + marker@.len() <= h@.len());
    }
    let q1 = match find(h, dq.as_slice(), j + marker.len()) {
        None => {
            return None;
        },
        Some(q1) => q1,
    };
    proof {
        lemma_find_spec_first(h@, dq@, j + marker.len());
        assert(h.len() == h@.len());
        assert(q1 + 1 <= h@.len());
    }
    let q2 = match find(h, dq.as_slice(), q1 + 1) {
        None => {
            return None;
        },
        Some(q2) => q2,
    };
    proof {
        lemma_find_spec_first(h@, dq@, q1 + 1);
    }
    Some(subrange_vec(h, q1 + 1, q2))
}

/// One markup attempt fails when the body holds no occurrence of its marker:
/// the name attribute pattern contains the bare marker, so a hit on the
/// pattern would be a hit on the marker.
proof fn lemma_markup_attempt_none(h: Seq<u8>, marker: Seq<u8>, dq: bool)
    requires
        forall|i: int| !match_at(h, marker, i),
    ensures
        markup_attempt_spec(h, marker, dq) is None,
{
    let name_pat = name_attr_spec(marker, dq);
    let pre = if dq {
        "name=\"".spec_bytes()
    } else {
        "name='".spec_bytes()
    };
    match find_spec(h, name_pat, 0) {
        None => {},
        Some(j) => {
            lemma_find_spec_first(h, name_pat, 0);
            assert(marker =~= name_pat.subrange(pre.len() as int, pre.len() + marker.len() as int));
            crate::bytes::lemma_match_at_contained(h, name_pat, marker, j, pre.len() as int);
            assert(false);
        },
    }
}

/// One fallback attempt fails when the body holds no occurrence of its marker.
proof fn lemma_fallback_attempt_none(h: Seq<u8>, marker: Seq<u8>)
    requires
        forall|i: int| !match_at(h, marker, i),
    ensures
        fallback_attempt_spec(h, marker) is None,
{
    match find_spec(h, marker, 0) {
        None => {},
        Some(j) => {
            lemma_find_spec_first(h, marker, 0);
            assert(false);
        },
    }
}

/// A body that holds none of the known markers — as bare text, anywhere —
/// yields no token: every markup and fallback attempt fails, so extraction
/// fails rather than returning a guessed value.
pub proof fn lemma_no_marker_extraction_fails(h: Seq<u8>)
    requires
        forall|i: int| !match_at(h, marker_rvt(), i),
        forall|i: int| !match_at(h, marker_header(), i),
        forall|i: int| !match_at(h, marker_csrf(), i),
    ensures
        extract_token_spec(h) is None,
{
    lemma_markup_attempt_none(h, marker_rvt(), true);
    lemma_markup_attempt_none(h, marker_rvt(), false);
    lemma_markup_attempt_none(h, marker_header(), true);
    lemma_markup_attempt_none(h, marker_header(), false);
    lemma_markup_attempt_none(h, marker_csrf(), true);
    lemma_markup_attempt_none(h, marker_csrf(), false);
    lemma_fallback_attempt_none(h, marker_header());
    lemma_fallback_attempt_none(h, marker_rvt());
}

/// Whenever any attempt locates a token — a markup hit on any known marker in
/// either quote style, or a fallback hit — the extraction succeeds.
pub proof fn lemma_any_attempt_found_extracts(h: Seq<u8>)
    requires
        markup_attempt_spec(h, marker_rvt(), true) is Some || markup_attempt_spec(
            h,
            marker_rvt(),
            false,
        ) is Some || markup_attempt_spec(h, marker_header(), true) is Some || markup_attempt_spec(
            h,
            marker_header(),
            false,
        ) is Some || markup_attempt_spec(h, marker_csrf(), true) is Some || markup_attempt_spec(
            h,
            marker_csrf(),
            false,
        ) is Some || fallback_attempt_spec(h, marker_header()) is Some || fallback_attempt_spec(
            h,
            marker_rvt(),
        ) is Some,
    ensures
        extract_token_spec(h) is Some,
{
}

/// A markup attempt that succeeds returns a literal piece of the body: the
/// text between the quotes of a `value` attribute occurrence — the first quote
/// of that style after the opener ends it, with no such quote in between.
pub proof fn lemma_markup_value_is_literal(h: Seq<u8>, marker: Seq<u8>, dq: bool)
    requires
        markup_attempt_spec(h, marker, dq) is Some,
    ensures
        ({
            exists|k: int, q: int|
                {
                    &&& match_at(h, value_attr_spec(dq), k)
                    &&& k + value_attr_spec(dq).len() <= q < h.len()
                    &&& h[q] == quote_of(dq)
                    &&& (forall|t: int|
                        k + value_attr_spec(dq).len() <= t < q ==> h[t] != quote_of(dq))
                    &&& markup_attempt_spec(h, marker, dq) == Some(
                        h.subrange(k + value_attr_spec(dq).len(), q),
                    )
                }
        }),
{
    let name_pat = name_attr_spec(marker, dq);
    let value_pat = value_attr_spec(dq);
    let quote = quote_of(dq);
    let j = find_spec(h, name_pat, 0)->Some_0;
    lemma_find_spec_first(h, name_pat, 0);
    crate::bytes::lemma_rfind_byte_bounds(h, 60u8, j);
    let tag_start = match rfind_byte_spec(h, 60u8, j) {
        Some(t) => t,
        None => 0,
    };
    let k = find_spec(h, value_pat, tag_start)->Some_0;
    lemma_find_spec_first(h, value_pat, tag_start);
    let vstart = k + value_pat.len() as int;
    let q = find_spec(h, seq![quote], vstart)->Some_0;
    lemma_find_spec_first(h, seq![quote], vstart);
    assert(match_at(h, seq![quote], q));
    assert(h.subrange(q, q + 1)[0] == h[q]);
    assert(h[q] == quote);
    assert forall|t: int| vstart <= t < q implies h[t] != quote by {
        if h[t] == quote {
            assert(h.subrange(t, t + 1) =~= seq![quote]);
            assert(match_at(h, seq![quote], t));
        }
    }
    assert(markup_attempt_spec(h, marker, dq) == Some(h.subrange(vstart, q)));
}

/// When the first marker's markup attempt succeeds, extraction returns exactly
/// its result — markup precedes fallback, and the marker list is ordered — and
/// that result is the marker's literal value, as `lemma_markup_value_is_literal`
/// delimits it.
pub proof fn lemma_extraction_returns_literal_value(h: Seq<u8>)
    requires
        markup_attempt_spec(h, marker_rvt(), true) is Some,
    ensures
        extract_token_spec(h) == markup_attempt_spec(h, marker_rvt(), true),
        ({
            exists|k: int, q: int|
                {
                    &&& match_at(h, value_attr_spec(true), k)
                    &&& k + value_attr_spec(true).len() <= q < h.len()
                    &&& h[q] == 34u8
                    &&& (forall|t: int| k + value_attr_spec(true).len() <= t < q ==> h[t] != 34u8)
                    &&& extract_token_spec(h) == Some(
                        h.subrange(k + value_attr_spec(true).len(), q),
                    )
                }
        }),
{
    lemma_markup_value_is_literal(h, marker_rvt(), true);
}

/// Extracts the anti-forgery token from an HTML body.
///
/// Succeeds with the token text exactly when `extract_token_spec` locates one;
/// otherwise fails with `TokenNotFound`, never with a guessed value.
pub fn extract_token(html: &[u8]) -> (r: Result<Vec<u8>, SessionError>)
    ensures
        match r {
            Ok(t) => extract_token_spec(html@) == Some(t@),
            Err(e) => e == SessionError::TokenNotFound && extract_token_spec(html@) is None,
        },
{
    let m_rvt = "__RequestVerificationToken".as_bytes();
    let m_header = "X-Skedda-RequestVerificationToken".as_bytes();
    let m_csrf = "csrf-token".as_bytes();
    if let Some(v) = markup_attempt(html, m_rvt, true) {
        return Ok(v);
    }
    if let Some(v) = markup_attempt(html, m_rvt, false) {
        return Ok(v);
    }
    if let Some(v) = markup_attempt(html, m_header, true) {
        return Ok(v);
    }
    if let Some(v) = markup_attempt(html, m_header, false) {
        return Ok(v);
    }
    if let Some(v) = markup_attempt(html, m_csrf, true) {
        return Ok(v);
    }
    if let Some(v) = markup_attempt(html, m_csrf, false) {
        return Ok(v);
    }
    if let Some(v) = fallback_attempt(html, m_header) {
        return Ok(v);
    }
    if let Some(v) = fallback_attempt(html, m_rvt) {
        return Ok(v);
    }
    Err(SessionError::TokenNotFound)
}

} // verus!
