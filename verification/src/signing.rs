//! Signing requests, and the hosts that a signed request may go to.
//!
//! A signed request carries the API key to its host, so only the exchange's own hosts are let
//! through, and nothing that is configured changes that. The secret leaves [`Credentials`] only
//! as part of a signature.

use vstd::prelude::*;
use crate::error::ExchangeError;
use crate::text::{joined, joined3, same_text, trim, u64_text};

verus! {

/// Why a request cannot be signed.
#[derive(Debug, PartialEq, Eq)]
pub enum SignError {
    EndpointNotAllowed(String),
    InvalidUrl(String),
    ClockBeforeEpoch,
}

impl SignError {
    /// The message of an error.
    pub open spec fn said(self) -> Seq<char> {
        match self {
            SignError::EndpointNotAllowed(s) => "endpoint 不在白名单内："@ + s@
                + "。只允许币安官方的生产与测试网域名。"@,
            SignError::InvalidUrl(s) => "URL 无法解析："@ + s@,
            SignError::ClockBeforeEpoch => "系统时钟早于 UNIX 纪元"@,
        }
    }

    /// The message for an operator.
    pub fn message(&self) -> (r: String)
        ensures
            r@ == self.said(),
    {
        match self {
            SignError::EndpointNotAllowed(s) => joined3(
                "endpoint 不在白名单内：",
                s.as_str(),
                "。只允许币安官方的生产与测试网域名。",
            ),
            SignError::InvalidUrl(s) => joined("URL 无法解析：", s.as_str()),
            SignError::ClockBeforeEpoch => "系统时钟早于 UNIX 纪元".to_owned(),
        }
    }

    /// The error as the exchange's: trying again does not help.
    pub fn into_exchange_error(self) -> (r: ExchangeError)
        ensures
            r matches ExchangeError::Fatal(s) && s@ == self.said(),
    {
        ExchangeError::Fatal(self.message())
    }
}

/// The scheme and the host of a URL; `None` where the text is no URL, and no host where it has
/// none.
pub uninterp spec fn url_parts(s: Seq<char>) -> Option<(Seq<char>, Option<Seq<char>>)>;

/// `url::Url::parse`, with `scheme` and `host_str` of what it gives. All are functions of the
/// text.
#[verifier::external_body]
pub(crate) fn parse_url(url: &str) -> (r: Option<(String, Option<String>)>)
    ensures
        match r {
            None => url_parts(url@) is None,
            Some((scheme, None)) => url_parts(url@) == Some((scheme@, None::<Seq<char>>)),
            Some((scheme, Some(host))) => url_parts(url@) == Some((scheme@, Some(host@))),
        },
{
    let parsed = url::Url::parse(url).ok()?;
    Some((parsed.scheme().to_string(), parsed.host_str().map(str::to_string)))
}

/// The hosts that signed requests may go to.
pub open spec fn signing_host(host: Seq<char>) -> bool {
    host == "fapi.binance.com"@ || host == "testnet.binancefuture.com"@
}

/// Whether signed requests may go to a URL.
pub open spec fn endpoint_ok(url: Seq<char>) -> bool {
    url_parts(url) matches Some((_, Some(host))) && signing_host(host)
}

/// The message for a URL that signed requests may not go to.
pub open spec fn host_fault(url: Seq<char>) -> Seq<char> {
    match url_parts(url) {
        Some((_, Some(host))) => "endpoint 不在白名单内："@ + host
            + "。只允许币安官方的生产与测试网域名。"@,
        _ => "URL 无法解析："@ + url,
    }
}

/// Why signed requests may not go to a URL of which the scheme and the host are known.
fn check_host(url: &str, parts: Option<(String, Option<String>)>) -> (r: Result<(), SignError>)
    ensures
        match parts {
            Some((_, Some(host))) => if signing_host(host@) {
                r is Ok
            } else {
                r matches Err(SignError::EndpointNotAllowed(s)) && s@ == host@
            },
            _ => r matches Err(SignError::InvalidUrl(s)) && s@ == url@,
        },
{
    match parts {
        Some((_, Some(host))) => {
            if same_text(host.as_str(), "fapi.binance.com") || same_text(
                host.as_str(),
                "testnet.binancefuture.com",
            ) {
                Ok(())
            } else {
                Err(SignError::EndpointNotAllowed(host))
            }
        },
        _ => Err(SignError::InvalidUrl(url.to_owned())),
    }
}

/// Checks that signed requests may go to a URL: its host has to be one of the exchange's own,
/// letter for letter.
pub fn endpoint_allowed(url: &str) -> (r: Result<(), SignError>)
    ensures
        r is Ok <==> endpoint_ok(url@),
        r matches Err(e) ==> e.said() == host_fault(url@),
        match url_parts(url@) {
            Some((_, Some(host))) => if signing_host(host) {
                r is Ok
            } else {
                r matches Err(SignError::EndpointNotAllowed(s)) && s@ == host
            },
            _ => r matches Err(SignError::InvalidUrl(s)) && s@ == url@,
        },
{
    let parts = parse_url(url);
    check_host(url, parts)
}

/// `SystemTime::now` and `duration_since` the start of 1970, in milliseconds; `None` where the
/// clock is before that. Nothing is known of what the clock shows.
#[verifier::external_body]
fn system_clock_ms() -> (r: Option<u128>)
{
    std::time::SystemTime::now().duration_since(std::time::UNIX_EPOCH).map(|d| d.as_millis()).ok()
}

/// A reading of the clock as a time stamp.
pub fn stamp_of(reading: Option<u128>) -> (r: Result<u64, SignError>)
    ensures
        match reading {
            Some(ms) => r matches Ok(t) && t == ms % 0x1_0000_0000_0000_0000,
            None => r == Err::<u64, SignError>(SignError::ClockBeforeEpoch),
        },
{
    match reading {
        Some(ms) => Ok((ms % 0x1_0000_0000_0000_0000) as u64),
        None => Err(SignError::ClockBeforeEpoch),
    }
}

/// The time now, in milliseconds since the start of 1970.
pub fn timestamp_ms() -> (r: Result<u64, SignError>)
    ensures
        r matches Err(e) ==> e is ClockBeforeEpoch,
{
    stamp_of(system_clock_ms())
}

/// The HMAC of a text under a secret, with SHA-256.
pub uninterp spec fn hmac_sha256(secret: Seq<char>, payload: Seq<char>) -> Seq<u8>;

/// `Hmac::<Sha256>::new_from_slice`, which takes keys of any length, `update` and `finalize`: the
/// code of the payload's bytes under the secret's, thirty-two bytes long.
#[verifier::external_body]
fn mac_of(secret: &str, payload: &str) -> (r: Vec<u8>)
    ensures
        r@ == hmac_sha256(secret@, payload@),
        r@.len() == 32,
{
    let mut mac = <hmac::Hmac<sha2::Sha256> as hmac::Mac>::new_from_slice(secret.as_bytes()).expect(
        "any length of key",
    );
    hmac::Mac::update(&mut mac, payload.as_bytes());
    hmac::Mac::finalize(mac).into_bytes().to_vec()
}

/// The character of a hexadecimal digit.
pub open spec fn hex_char(d: int) -> char {
    if d < 10 {
        (48 + d) as char
    } else {
        (87 + d) as char
    }
}

/// Bytes in hexadecimal, two lower case digits for each.
pub open spec fn hex_of(s: Seq<u8>) -> Seq<char> {
    Seq::new(
        2 * s.len(),
        |i: int|
            if i % 2 == 0 {
                hex_char(s[i / 2] as int / 16)
            } else {
                hex_char(s[i / 2] as int % 16)
            },
    )
}

/// `hex::encode`: two lower case digits for each byte, in order.
#[verifier::external_body]
fn hex_encode(bytes: &Vec<u8>) -> (r: String)
    ensures
        r@ == hex_of(bytes@),
{
    hex::encode(bytes)
}

/// The signature of a text under a secret.
pub open spec fn signature(secret: Seq<char>, payload: Seq<char>) -> Seq<char> {
    hex_of(hmac_sha256(secret, payload))
}

/// Signs a text: its HMAC in sixty-four hexadecimal digits.
pub fn sign(secret: &str, payload: &str) -> (r: String)
    ensures
        r@ == signature(secret@, payload@),
        r@.len() == 64,
        forall|i: int|
            0 <= i < r@.len() ==> ('0' <= #[trigger] r@[i] <= '9' || 'a' <= r@[i] <= 'f'),
{
    let code = mac_of(secret, payload);
    hex_encode(&code)
}

/// A parameter of a request.
pub type ParamModel = (Seq<char>, Seq<char>);

/// Parameters by their texts.
pub open spec fn params_of(s: Seq<(&str, String)>) -> Seq<ParamModel> {
    s.map_values(|p: (&str, String)| (p.0@, p.1@))
}

/// Parameters in a row, as a query.
pub open spec fn query_of(s: Seq<ParamModel>) -> Seq<char>
    decreases s.len(),
{
    if s.len() == 0 {
        Seq::empty()
    } else {
        let one = s.last().0 + "="@ + s.last().1;
        if s.len() == 1 {
            one
        } else {
            query_of(s.drop_last()) + "&"@ + one
        }
    }
}

/// Writes parameters as a query, in their order.
pub fn build_query(params: &[(&str, String)]) -> (r: String)
    ensures
        r@ == query_of(params_of(params@)),
{
    let ghost all = params_of(params@);
    let mut q = String::new();
    assert(q@ =~= Seq::<char>::empty());
    for i in 0..params.len()
        invariant
            all == params_of(params@),
            q@ == query_of(all.take(i as int)),
    {
        assert(all.take(i + 1).drop_last() =~= all.take(i as int));
        assert(all.take(i + 1).last() == (params@[i as int].0@, params@[i as int].1@));
        let one = joined3(params[i].0, "=", params[i].1.as_str());
        if i == 0 {
            q = one;
        } else {
            q = joined3(q.as_str(), "&", one.as_str());
        }
    }
    assert(all.take(all.len() as int) =~= all);
    q
}

/// The parameters of a signed request: those that are given, the time, and how long the request
/// may take.
pub open spec fn stamped(params: Seq<ParamModel>, recv_window_ms: u64, at: u64) -> Seq<ParamModel> {
    params.push(("timestamp"@, crate::text::digits(at as nat))).push(
        ("recvWindow"@, crate::text::digits(recv_window_ms as nat)),
    )
}

/// The query of a signed request. The signature covers all of the parameters.
pub open spec fn signed_text(
    secret: Seq<char>,
    params: Seq<ParamModel>,
    recv_window_ms: u64,
    at: u64,
) -> Seq<char> {
    let payload = query_of(stamped(params, recv_window_ms, at));
    payload + "&signature="@ + signature(secret, payload)
}

/// The query of a signed request at a time.
pub fn signed_query_at(
    secret: &str,
    params: Vec<(&str, String)>,
    recv_window_ms: u64,
    at: u64,
) -> (r: String)
    ensures
        r@ == signed_text(secret@, params_of(params@), recv_window_ms, at),
{
    let ghost given = params_of(params@);
    let mut all = params;
    let ghost first = all@;
    all.push(("timestamp", u64_text(at)));
    assert(params_of(all@) =~= given.push(("timestamp"@, crate::text::digits(at as nat))));
    all.push(("recvWindow", u64_text(recv_window_ms)));
    assert(params_of(all@) =~= stamped(given, recv_window_ms, at));
    let payload = build_query(all.as_slice());
    let signature = sign(secret, payload.as_str());
    joined3(payload.as_str(), "&signature=", signature.as_str())
}

/// The query of a signed request now. Whatever the clock shows, it is the query of that time.
pub fn signed_query(secret: &str, params: Vec<(&str, String)>, recv_window_ms: u64) -> (r: Result<
    String,
    SignError,
>)
    ensures
        match r {
            Ok(q) => exists|at: u64|
                q@ == #[trigger] signed_text(secret@, params_of(params@), recv_window_ms, at),
            Err(e) => e is ClockBeforeEpoch,
        },
{
    match timestamp_ms() {
        Ok(at) => Ok(signed_query_at(secret, params, recv_window_ms, at)),
        Err(e) => Err(e),
    }
}

/// The key and the secret of an account. The secret is read by no one but [`Credentials::sign_params`].
pub struct Credentials {
    pub api_key: String,
    secret: String,
}

impl Credentials {
    /// The API key.
    pub closed spec fn key(&self) -> Seq<char> {
        self.api_key@
    }

    /// The secret.
    pub closed spec fn hidden(&self) -> Seq<char> {
        self.secret@
    }

    pub fn new(api_key: &str, secret: &str) -> (r: Self)
        ensures
            r.key() == api_key@,
            r.hidden() == secret@,
    {
        Credentials { api_key: api_key.to_owned(), secret: secret.to_owned() }
    }

    /// The credentials of a key and a secret that may be missing. Blank ones are none.
    pub fn from_values(key: Option<String>, secret: Option<String>) -> (r: Option<Self>)
        ensures
            match (key, secret) {
                (Some(k), Some(s)) => if crate::text::trimmed(k@).len() == 0
                    || crate::text::trimmed(s@).len() == 0 {
                    r is None
                } else {
                    r matches Some(c) && c.key() == k@ && c.hidden() == s@
                },
                _ => r is None,
            },
    {
        match (key, secret) {
            (Some(k), Some(s)) => {
                let a = trim(k.as_str());
                let b = trim(s.as_str());
                if is_blank(&a) || is_blank(&b) {
                    None
                } else {
                    Some(Credentials { api_key: k, secret: s })
                }
            },
            _ => None,
        }
    }

    /// The query of a signed request now.
    pub fn sign_params(&self, params: Vec<(&str, String)>, recv_window_ms: u64) -> (r: Result<
        String,
        SignError,
    >)
        ensures
            match r {
                Ok(q) => exists|at: u64|
                    q@ == #[trigger] signed_text(
                        self.hidden(),
                        params_of(params@),
                        recv_window_ms,
                        at,
                    ),
                Err(e) => e is ClockBeforeEpoch,
            },
    {
        let ghost given = params_of(params@);
        let secret = self.secret.as_str();
        let r = signed_query(secret, params, recv_window_ms);
        proof {
            if r is Ok {
                let q = r->Ok_0@;
                let at = choose|at: u64|
                    q == #[trigger] signed_text(secret@, given, recv_window_ms, at);
                assert(q == signed_text(self.hidden(), given, recv_window_ms, at));
            }
        }
        r
    }

    /// The query of a signed request at a time.
    pub fn sign_params_at(&self, params: Vec<(&str, String)>, recv_window_ms: u64, at: u64) -> (r:
        String)
        ensures
            r@ == signed_text(self.hidden(), params_of(params@), recv_window_ms, at),
    {
        signed_query_at(self.secret.as_str(), params, recv_window_ms, at)
    }

    /// What may be shown of credentials: the same for all, so neither the key nor the secret.
    pub fn shown(&self) -> (r: &'static str)
        ensures
            r@ == "Credentials { api_key: \"<已隐藏>\", secret: \"<已隐藏>\" }"@,
    {
        "Credentials { api_key: \"<已隐藏>\", secret: \"<已隐藏>\" }"
    }
}

impl Clone for Credentials {
    fn clone(&self) -> (r: Self)
        ensures
            r == *self,
    {
        Credentials { api_key: self.api_key.clone(), secret: self.secret.clone() }
    }
}

/// Whether a text is empty.
fn is_blank(s: &String) -> (r: bool)
    ensures
        r == (s@.len() == 0),
{
    let v = crate::text::chars_of(s.as_str());
    v.len() == 0
}

/// The hosts of quotes, of other exchanges and of look-alikes are no signing hosts: only the two
/// are.
pub proof fn law_signing_hosts()
    ensures
        signing_host("fapi.binance.com"@),
        signing_host("testnet.binancefuture.com"@),
        !signing_host("fstream.binance.com"@),
        forall|h: Seq<char>| #[trigger]
            signing_host(h) ==> h == "fapi.binance.com"@ || h == "testnet.binancefuture.com"@,
{
    reveal_strlit("fapi.binance.com");
    reveal_strlit("testnet.binancefuture.com");
    reveal_strlit("fstream.binance.com");
    assert("fstream.binance.com"@.len() != "fapi.binance.com"@.len());
    assert("fstream.binance.com"@.len() != "testnet.binancefuture.com"@.len());
}

/// A query holds its parameters in their order: that of two lists is the first, an ampersand, and the
/// second, so nothing is left out and nothing is moved. One parameter is its name, an equals sign and
/// its value.
pub proof fn law_queries_keep_the_order(a: Seq<ParamModel>, b: Seq<ParamModel>)
    requires
        a.len() > 0,
        b.len() > 0,
    ensures
        query_of(a + b) == query_of(a) + "&"@ + query_of(b),
        b.len() == 1 ==> query_of(b) == b[0].0 + "="@ + b[0].1,
    decreases b.len(),
{
    let all = a + b;
    assert(all.last() == b.last());
    if b.len() == 1 {
        assert(all.drop_last() =~= a);
        assert(query_of(all) =~= query_of(a) + "&"@ + query_of(b));
    } else {
        let rest = b.drop_last();
        law_queries_keep_the_order(a, rest);
        assert(all.drop_last() =~= a + rest);
        assert(query_of(all) =~= query_of(a) + "&"@ + query_of(b));
    }
}

/// What is signed is all of the request: its parameters, then the time that it is signed for, then how
/// long it is good for; and the signature stands behind all that it covers.
pub proof fn law_signatures_cover_the_request(
    secret: Seq<char>,
    params: Seq<ParamModel>,
    recv_window_ms: u64,
    at: u64,
)
    requires
        params.len() > 0,
    ensures
        ({
            let payload = query_of(params) + "&timestamp="@ + crate::text::digits(at as nat)
                + "&recvWindow="@ + crate::text::digits(recv_window_ms as nat);
            signed_text(secret, params, recv_window_ms, at) == payload + "&signature="@ + hex_of(
                hmac_sha256(secret, payload),
            )
        }),
{
    reveal_strlit("&timestamp=");
    reveal_strlit("&recvWindow=");
    reveal_strlit("timestamp");
    reveal_strlit("recvWindow");
    reveal_strlit("&");
    reveal_strlit("=");
    let t: ParamModel = ("timestamp"@, crate::text::digits(at as nat));
    let w: ParamModel = ("recvWindow"@, crate::text::digits(recv_window_ms as nat));
    let all = stamped(params, recv_window_ms, at);
    assert(all =~= params + seq![t, w]);
    assert(seq![t, w] =~= seq![t] + seq![w]);
    law_queries_keep_the_order(params, seq![t, w]);
    law_queries_keep_the_order(seq![t], seq![w]);
    law_queries_keep_the_order(seq![w], seq![t]);
    assert("&timestamp="@ =~= "&"@ + "timestamp"@ + "="@);
    assert("&recvWindow="@ =~= "&"@ + "recvWindow"@ + "="@);
    let payload = query_of(params) + "&timestamp="@ + crate::text::digits(at as nat)
        + "&recvWindow="@ + crate::text::digits(recv_window_ms as nat);
    assert(query_of(all) =~= payload);
}

} // verus!
