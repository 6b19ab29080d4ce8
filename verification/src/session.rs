//! The session manager: the authenticated request context and how it is built.
//!
//! A session context pairs the anti-forgery token with the cookies of the same
//! HTTP exchange: `establish_session` takes the body and the `Set-Cookie`
//! values of one response, so the pairing holds by construction. Requests are
//! described as plain values — method, path, headers — and the caller's HTTP
//! channel sends them as they stand.

use vstd::prelude::*;
use vstd::string::StringSliceAdditionalSpecFns;

use crate::bytes::{append_bytes, bytes_eq, find, find_spec, lemma_find_spec_first, subrange_vec};
use crate::errors::SessionError;
use crate::token::{extract_token, extract_token_spec};

verus! {

/// The authenticated request context of one established session.
///
/// Invariant: the token and the cookies originate from the same HTTP exchange;
/// `establish_session` guarantees it by building both from one response.
pub struct SessionContext {
    pub base_address: Vec<u8>,
    pub anti_forgery_token: Vec<u8>,
    pub cookies: Vec<(Vec<u8>, Vec<u8>)>,
}

/// Mathematical model of a session context.
#[verifier::ext_equal]
pub struct SessionContextModel {
    pub base_address: Seq<u8>,
    pub anti_forgery_token: Seq<u8>,
    pub cookies: Seq<(Seq<u8>, Seq<u8>)>,
}

/// Views of a sequence of byte-vector pairs.
pub open spec fn pairs_view(s: Seq<(Vec<u8>, Vec<u8>)>) -> Seq<(Seq<u8>, Seq<u8>)> {
    s.map_values(|p: (Vec<u8>, Vec<u8>)| (p.0@, p.1@))
}

impl View for SessionContext {
    type V = SessionContextModel;

    open spec fn view(&self) -> SessionContextModel {
        SessionContextModel {
            base_address: self.base_address@,
            anti_forgery_token: self.anti_forgery_token@,
            cookies: pairs_view(self.cookies@),
        }
    }
}

/// How the follow-up request carries the session cookies.
///
/// `ClientStore` trusts the HTTP channel's own cookie storage and adds no
/// header: token and cookie then come from the same exchange by construction.
/// `HarvestReplay` replays every harvested cookie in one header. `SingleNamed`
/// replays only the named security cookie. The two replay policies are debug
/// paths; `ClientStore` is the default.
#[derive(Debug, Clone, Copy, PartialEq, Eq, Structural)]
pub enum CookiePolicy {
    ClientStore,
    HarvestReplay,
    SingleNamed,
}

/// HTTP method of a described request.
#[derive(Debug, Clone, Copy, PartialEq, Eq, Structural)]
pub enum Method {
    Get,
    Post,
}

/// A request described as plain values, for the HTTP channel to send.
pub struct Request {
    pub method: Method,
    pub path: Vec<u8>,
    pub headers: Vec<(Vec<u8>, Vec<u8>)>,
}

/// The cookie pair of one `Set-Cookie` value: the text before the first `;`,
/// split at its first `=`. A value with no `=` has no name/value form, cannot
/// enter the session's cookie pairs, and is dropped by the harvest.
pub open spec fn cookie_pair_spec(raw: Seq<u8>) -> Option<(Seq<u8>, Seq<u8>)> {
    let pair_part = match find_spec(raw, seq![59u8], 0) {
        Some(semi) => raw.subrange(0, semi),
        None => raw,
    };
    match find_spec(pair_part, seq![61u8], 0) {
        None => None,
        Some(eq) => Some(
            (pair_part.subrange(0, eq), pair_part.subrange(eq + 1, pair_part.len() as int)),
        ),
    }
}

/// The cookies of a response: each parseable `Set-Cookie` value, in order.
pub open spec fn harvest_spec(raws: Seq<Seq<u8>>) -> Seq<(Seq<u8>, Seq<u8>)>
    decreases raws.len(),
{
    if raws.len() == 0 {
        Seq::empty()
    } else {
        match cookie_pair_spec(raws.last()) {
            None => harvest_spec(raws.drop_last()),
            Some(p) => harvest_spec(raws.drop_last()).push(p),
        }
    }
}

/// One cookie as `name=value`.
pub open spec fn pair_str_spec(p: (Seq<u8>, Seq<u8>)) -> Seq<u8> {
    p.0 + seq![61u8] + p.1
}

/// The `Cookie` header value: the cookies joined with `; `.
pub open spec fn cookie_header_spec(cookies: Seq<(Seq<u8>, Seq<u8>)>) -> Seq<u8>
    decreases cookies.len(),
{
    if cookies.len() == 0 {
        Seq::empty()
    } else if cookies.len() == 1 {
        pair_str_spec(cookies[0])
    } else {
        cookie_header_spec(cookies.drop_last()) + seq![59u8, 32u8] + pair_str_spec(cookies.last())
    }
}

/// Index of the first cookie at or after `from` whose name equals `name`.
pub open spec fn first_cookie_from(
    cookies: Seq<(Seq<u8>, Seq<u8>)>,
    name: Seq<u8>,
    from: int,
) -> Option<int>
    decreases cookies.len() - from,
{
    if from < 0 {
        first_cookie_from(cookies, name, 0)
    } else if from >= cookies.len() {
        None
    } else if cookies[from].0 == name {
        Some(from)
    } else {
        first_cookie_from(cookies, name, from + 1)
    }
}

/// Parses one `Set-Cookie` value into its cookie pair, per `cookie_pair_spec`.
pub fn parse_set_cookie(raw: &[u8]) -> (r: Option<(Vec<u8>, Vec<u8>)>)
    ensures
        match r {
            Some(p) => cookie_pair_spec(raw@) == Some((p.0@, p.1@)),
            None => cookie_pair_spec(raw@) is None,
        },
{
    let semi = byte_of(59);
    let eq_pat = byte_of(61);
    let cut = match find(raw, semi.as_slice(), 0) {
        Some(s) => {
            proof {
                lemma_find_spec_first(raw@, semi@, 0);
                assert(raw.len() == raw@.len());
            }
            s
        },
        None => raw.len(),
    };
    let pair_part = subrange_vec(raw, 0, cut);
    assert(pair_part@ == match find_spec(raw@, seq![59u8], 0) {
        Some(semi) => raw@.subrange(0, semi),
        None => raw@,
    }) by {
        if find_spec(raw@, seq![59u8], 0) is None {
            assert(raw@.subrange(0, raw@.len() as int) =~= raw@);
        }
    }
    match find(pair_part.as_slice(), eq_pat.as_slice(), 0) {
        None => None,
        Some(eq) => {
            proof {
                lemma_find_spec_first(pair_part@, eq_pat@, 0);
                assert(pair_part.len() == pair_part@.len());
            }
            let name = subrange_vec(pair_part.as_slice(), 0, eq);
            let value = subrange_vec(pair_part.as_slice(), eq + 1, pair_part.len());
            Some((name, value))
        },
    }
}

/// A one-byte vector.
fn byte_of(b: u8) -> (r: Vec<u8>)
    ensures
        r@ == seq![b],
{
    let mut v: Vec<u8> = Vec::new();
    v.push(b);
    assert(v@ =~= seq![b]);
    v
}

/// Harvests the cookies of a response's `Set-Cookie` values, in order.
pub fn harvest_cookies(raws: &Vec<Vec<u8>>) -> (r: Vec<(Vec<u8>, Vec<u8>)>)
    ensures
        pairs_view(r@) == harvest_spec(Seq::new(raws@.len(), |i: int| raws@[i]@)),
{
    let ghost raw_views = Seq::new(raws@.len(), |i: int| raws@[i]@);
    let mut out: Vec<(Vec<u8>, Vec<u8>)> = Vec::new();
    let mut k: usize = 0;
    while k < raws.len()
        invariant
            k <= raws.len(),
            raw_views == Seq::new(raws@.len(), |i: int| raws@[i]@),
            pairs_view(out@) == harvest_spec(raw_views.subrange(0, k as int)),
        decreases raws.len() - k,
    {
        let ghost prefix = raw_views.subrange(0, k as int);
        let ghost prefix1 = raw_views.subrange(0, k + 1 as int);
        proof {
            assert(prefix1.drop_last() =~= prefix);
            assert(prefix1.last() == raws@[k as int]@);
        }
        match parse_set_cookie(raws[k].as_slice()) {
            Some(p) => {
                out.push(p);
                assert(pairs_view(out@) =~= harvest_spec(prefix1));
            },
            None => {
                assert(pairs_view(out@) =~= harvest_spec(prefix1));
            },
        }
        k = k + 1;
    }
    assert(raw_views.subrange(0, raws@.len() as int) =~= raw_views);
    out
}

/// Joins the cookies into one `Cookie` header value, per `cookie_header_spec`.
pub fn cookie_header_value(cookies: &Vec<(Vec<u8>, Vec<u8>)>) -> (r: Vec<u8>)
    ensures
        r@ == cookie_header_spec(pairs_view(cookies@)),
{
    let ghost model = pairs_view(cookies@);
    let mut out: Vec<u8> = Vec::new();
    let mut k: usize = 0;
    while k < cookies.len()
        invariant
            k <= cookies.len(),
            model == pairs_view(cookies@),
            model.len() == cookies@.len(),
            out@ == cookie_header_spec(model.subrange(0, k as int)),
        decreases cookies.len() - k,
    {
        let ghost prefix = model.subrange(0, k as int);
        let ghost prefix1 = model.subrange(0, k + 1 as int);
        proof {
            assert(prefix1.drop_last() =~= prefix);
            assert(prefix1.last() == model[k as int]);
        }
        if k > 0 {
            let sep = byte_of(59);
            append_bytes(&mut out, sep.as_slice());
            let sp = byte_of(32);
            append_bytes(&mut out, sp.as_slice());
        }
        append_bytes(&mut out, cookies[k].0.as_slice());
        let eq = byte_of(61);
        append_bytes(&mut out, eq.as_slice());
        append_bytes(&mut out, cookies[k].1.as_slice());
        proof {
            assert(model[k as int].0 == cookies@[k as int].0@);
            assert(model[k as int].1 == cookies@[k as int].1@);
            if k == 0 {
                assert(out@ =~= pair_str_spec(prefix1[0]));
                assert(cookie_header_spec(prefix1) == pair_str_spec(prefix1[0]));
            } else {
                assert(out@ =~= cookie_header_spec(prefix) + seq![59u8, 32u8] + pair_str_spec(
                    prefix1.last(),
                ));
            }
        }
        k = k + 1;
    }
    assert(model.subrange(0, cookies@.len() as int) =~= model);
    out
}

/// The value of the first cookie with the given name, or `None`.
pub fn find_cookie(cookies: &Vec<(Vec<u8>, Vec<u8>)>, name: &[u8]) -> (r: Option<(Vec<u8>, Vec<u8>)>)
    ensures
        match r {
            Some(p) => {
                &&& first_cookie_from(pairs_view(cookies@), name@, 0) matches Some(i)
                    && pairs_view(cookies@)[i] == (p.0@, p.1@)
            },
            None => first_cookie_from(pairs_view(cookies@), name@, 0) is None,
        },
{
    let ghost model = pairs_view(cookies@);
    let mut k: usize = 0;
    while k < cookies.len()
        invariant
            k <= cookies.len(),
            model == pairs_view(cookies@),
            model.len() == cookies@.len(),
            first_cookie_from(model, name@, 0) == first_cookie_from(model, name@, k as int),
        decreases cookies.len() - k,
    {
        if bytes_eq(cookies[k].0.as_slice(), name) {
            assert(first_cookie_from(model, name@, k as int) == Some(k as int));
            let n = subrange_vec(cookies[k].0.as_slice(), 0, cookies[k].0.len());
            let v = subrange_vec(cookies[k].1.as_slice(), 0, cookies[k].1.len());
            proof {
                assert(n@ =~= model[k as int].0);
                assert(v@ =~= model[k as int].1);
            }
            return Some((n, v));
        }
        assert(first_cookie_from(model, name@, k as int) == first_cookie_from(
            model,
            name@,
            k + 1,
        ));
        k = k + 1;
    }
    assert(first_cookie_from(model, name@, k as int) is None);
    None
}

/// Whether a status code counts as success.
pub open spec fn is_success_status(code: u16) -> bool {
    200 <= code < 300
}

/// Accepts a success status; any other code is that code's error, exactly.
pub fn check_status(code: u16) -> (r: Result<(), SessionError>)
    ensures
        r is Ok <==> is_success_status(code),
        r is Err ==> r == Result::<(), SessionError>::Err(SessionError::HttpStatus(code)),
{
    if 200 <= code && code < 300 {
        Ok(())
    } else {
        Err(SessionError::HttpStatus(code))
    }
}

/// Builds a session context from one response: its body and its `Set-Cookie`
/// values. Succeeds exactly when the body holds an anti-forgery token; the
/// token and the harvested cookies then come from that same exchange.
pub fn establish_session(
    base_address: Vec<u8>,
    body: &[u8],
    set_cookies: &Vec<Vec<u8>>,
) -> (r: Result<SessionContext, SessionError>)
    ensures
        match r {
            Ok(ctx) => {
                &&& extract_token_spec(body@) == Some(ctx@.anti_forgery_token)
                &&& ctx@.cookies == harvest_spec(
                    Seq::new(set_cookies@.len(), |i: int| set_cookies@[i]@),
                )
                &&& ctx@.base_address == base_address@
            },
            Err(e) => e == SessionError::TokenNotFound && extract_token_spec(body@) is None,
        },
{
    let token = match extract_token(body) {
        Ok(t) => t,
        Err(e) => {
            return Err(e);
        },
    };
    let cookies = harvest_cookies(set_cookies);
    Ok(SessionContext { base_address, anti_forgery_token: token, cookies })
}

/// The fixed header names and values of an authenticated request.
pub open spec fn token_header_name() -> Seq<u8> {
    "X-Skedda-RequestVerificationToken".spec_bytes()
}

/// The name of the paired security cookie (the single-named debug policy).
pub open spec fn security_cookie_name() -> Seq<u8> {
    "X-Skedda-RequestVerificationCookie".spec_bytes()
}

/// The `Referer` of an authenticated request: the session page of the base.
pub open spec fn referer_spec(base: Seq<u8>) -> Seq<u8> {
    base + "/booking".spec_bytes()
}

/// The headers of an authenticated request under a cookie policy: the token
/// header, `Accept: application/json`, the `Referer`, and — under a replay
/// policy — the `Cookie` header it calls for. A replay with nothing to replay
/// (no harvested cookie, or no security cookie) adds no `Cookie` header.
pub open spec fn headers_spec(ctx: SessionContextModel, policy: CookiePolicy) -> Seq<
    (Seq<u8>, Seq<u8>),
> {
    let fixed = seq![
        (token_header_name(), ctx.anti_forgery_token),
        ("Accept".spec_bytes(), "application/json".spec_bytes()),
        ("Referer".spec_bytes(), referer_spec(ctx.base_address)),
    ];
    match policy {
        CookiePolicy::ClientStore => fixed,
        CookiePolicy::HarvestReplay => if ctx.cookies.len() == 0 {
            fixed
        } else {
            fixed.push(("Cookie".spec_bytes(), cookie_header_spec(ctx.cookies)))
        },
        CookiePolicy::SingleNamed => match first_cookie_from(
            ctx.cookies,
            security_cookie_name(),
            0,
        ) {
            None => fixed,
            Some(i) => fixed.push(("Cookie".spec_bytes(), pair_str_spec(ctx.cookies[i]))),
        },
    }
}

/// Describes an authenticated request: the anti-forgery token as a named
/// header, `Accept: application/json`, a `Referer` pointing at the session
/// page, and the cookies the policy calls for.
pub fn build_authenticated_request(
    method: Method,
    path: Vec<u8>,
    ctx: &SessionContext,
    policy: CookiePolicy,
) -> (r: Request)
    ensures
        r.method == method,
        r.path@ == path@,
        pairs_view(r.headers@) == headers_spec(ctx@, policy),
{
    let mut headers: Vec<(Vec<u8>, Vec<u8>)> = Vec::new();
    let token_name = str_bytes("X-Skedda-RequestVerificationToken");
    let token_value = subrange_vec(
        ctx.anti_forgery_token.as_slice(),
        0,
        ctx.anti_forgery_token.len(),
    );
    assert(token_value@ =~= ctx@.anti_forgery_token);
    headers.push((token_name, token_value));
    headers.push((str_bytes("Accept"), str_bytes("application/json")));
    let mut referer = subrange_vec(ctx.base_address.as_slice(), 0, ctx.base_address.len());
    assert(referer@ =~= ctx@.base_address);
    append_bytes(&mut referer, "/booking".as_bytes());
    headers.push((str_bytes("Referer"), referer));
    match policy {
        CookiePolicy::ClientStore => {
            assert(pairs_view(headers@) =~= headers_spec(ctx@, policy));
        },
        CookiePolicy::HarvestReplay => {
            if ctx.cookies.len() > 0 {
                let value = cookie_header_value(&ctx.cookies);
                headers.push((str_bytes("Cookie"), value));
            }
            assert(pairs_view(headers@) =~= headers_spec(ctx@, policy));
        },
        CookiePolicy::SingleNamed => {
            match find_cookie(&ctx.cookies, "X-Skedda-RequestVerificationCookie".as_bytes()) {
                None => {
                    assert(pairs_view(headers@) =~= headers_spec(ctx@, policy));
                },
                Some(p) => {
                    let mut value = p.0;
                    let eq = byte_of(61);
                    append_bytes(&mut value, eq.as_slice());
                    append_bytes(&mut value, p.1.as_slice());
                    headers.push((str_bytes("Cookie"), value));
                    assert(pairs_view(headers@) =~= headers_spec(ctx@, policy));
                },
            }
        },
    }
    Request { method, path, headers }
}

/// A string literal's bytes as a fresh vector.
fn str_bytes(s: &str) -> (r: Vec<u8>)
    ensures
        r@ == s.spec_bytes(),
{
    let b = s.as_bytes();
    subrange_vec(b, 0, b.len())
}

} // verus!
