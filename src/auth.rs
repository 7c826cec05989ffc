//! Authorization headers: a static personal token, or an OAuth 1.0a
//! signature (HMAC-SHA1) over the request.
use vstd::prelude::*;

use base64::Engine;
use hmac::Mac;

use crate::encoding::{decimal, decimal_string, hex_encode, hex_of, pct_encoded, percent_encode};
use crate::params::{merged, normalized_params, param_string, spairs, upsert_param};
use crate::url::{pairs_view, split_url, url_base, url_params};

verus! {

/// What `str::to_uppercase` gives for a string.
pub uninterp spec fn upper_of(s: Seq<char>) -> Seq<char>;

/// The HMAC-SHA1 tag of the UTF-8 bytes of `msg` under the UTF-8 bytes of `key`.
pub uninterp spec fn hmac_sha1_of(key: Seq<char>, msg: Seq<char>) -> Seq<u8>;

/// Standard base64 (RFC 4648 alphabet, with `=` padding) of `b`.
pub uninterp spec fn base64_of(b: Seq<u8>) -> Seq<char>;

/// A character of the standard base64 alphabet, or the padding `=`.
pub open spec fn is_base64_char(c: char) -> bool {
    ('A' <= c && c <= 'Z') || ('a' <= c && c <= 'z') || ('0' <= c && c <= '9') || c == '+'
        || c == '/' || c == '='
}

/// Relies on `str::to_uppercase`: the result depends on the characters alone.
#[verifier::external_body]
fn to_upper(s: &str) -> (r: String)
    ensures
        r@ == upper_of(s@),
{
    s.to_uppercase()
}

/// Relies on `hmac::Hmac<sha1::Sha1>`: `new_from_slice` accepts a key of any
/// length, `update` with the message, `finalize` gives the 20-byte tag.
#[verifier::external_body]
fn hmac_sha1(key: &str, msg: &str) -> (r: Vec<u8>)
    ensures
        r@ == hmac_sha1_of(key@, msg@),
        r@.len() == 20,
{
    let mut mac = hmac::Hmac::<sha1::Sha1>::new_from_slice(key.as_bytes())
        .expect("HMAC takes a key of any length");
    mac.update(msg.as_bytes());
    mac.finalize().into_bytes().to_vec()
}

/// Relies on `base64::engine::general_purpose::STANDARD.encode`: four
/// characters of the standard alphabet (or padding) for every started group
/// of three bytes.
#[verifier::external_body]
fn base64_encode(b: &[u8]) -> (r: String)
    ensures
        r@ == base64_of(b@),
        r@.len() == 4 * ((b@.len() + 2) / 3),
        forall|i: int| 0 <= i < r@.len() ==> is_base64_char(#[trigger] r@[i]),
{
    base64::engine::general_purpose::STANDARD.encode(b)
}

/// Relies on `rand::random`: sixteen bytes from the thread-local generator.
#[verifier::external_body]
fn random_bytes16() -> (r: Vec<u8>)
    ensures
        r@.len() == 16,
{
    rand::random::<[u8; 16]>().to_vec()
}

/// Relies on `std::time::SystemTime::now`: whole seconds since the Unix
/// epoch (0 for a clock set before it).
#[verifier::external_body]
fn unix_time_secs() -> (r: u64) {
    match std::time::SystemTime::now().duration_since(std::time::UNIX_EPOCH) {
        Ok(d) => d.as_secs(),
        Err(_) => 0,
    }
}

/// The six protocol parameters, in the order they are first set.
pub open spec fn oauth_params(
    consumer_key: Seq<char>,
    nonce: Seq<char>,
    timestamp: Seq<char>,
    token: Seq<char>,
) -> Seq<(Seq<char>, Seq<char>)> {
    seq![
        ("oauth_consumer_key"@, consumer_key),
        ("oauth_nonce"@, nonce),
        ("oauth_signature_method"@, "HMAC-SHA1"@),
        ("oauth_timestamp"@, timestamp),
        ("oauth_token"@, token),
        ("oauth_version"@, "1.0"@),
    ]
}

/// The signature base string: method, base URL and parameter string.
pub open spec fn signature_base(method: Seq<char>, url: Seq<char>, params: Seq<char>) -> Seq<char> {
    upper_of(method) + "&"@ + pct_encoded(url_base(url)) + "&"@ + pct_encoded(params)
}

/// The HMAC key: both secrets encoded and joined by `&`.
pub open spec fn signing_key(consumer_secret: Seq<char>, token_secret: Seq<char>) -> Seq<char> {
    pct_encoded(consumer_secret) + "&"@ + pct_encoded(token_secret)
}

/// The header text around already-encoded values, fields in fixed order.
pub open spec fn header_text(
    consumer_key: Seq<char>,
    nonce: Seq<char>,
    signature: Seq<char>,
    timestamp: Seq<char>,
    token: Seq<char>,
) -> Seq<char> {
    "OAuth oauth_consumer_key=\""@ + consumer_key + "\", oauth_nonce=\""@ + nonce
        + "\", oauth_signature=\""@ + signature
        + "\", oauth_signature_method=\"HMAC-SHA1\", oauth_timestamp=\""@ + timestamp
        + "\", oauth_token=\""@ + token + "\", oauth_version=\"1.0\""@
}

/// The signature of a request: base64 of the HMAC-SHA1 of its base string.
pub open spec fn oauth_signature(
    consumer_key: Seq<char>,
    consumer_secret: Seq<char>,
    token: Seq<char>,
    token_secret: Seq<char>,
    method: Seq<char>,
    url: Seq<char>,
    nonce: Seq<char>,
    timestamp: Seq<char>,
) -> Seq<char> {
    let params = merged(oauth_params(consumer_key, nonce, timestamp, token), url_params(url));
    let base = signature_base(method, url, param_string(params));
    base64_of(hmac_sha1_of(signing_key(consumer_secret, token_secret), base))
}

/// The OAuth 1.0a `Authorization` header of a request, for a given nonce and
/// timestamp.
pub open spec fn oauth_header(
    consumer_key: Seq<char>,
    consumer_secret: Seq<char>,
    token: Seq<char>,
    token_secret: Seq<char>,
    method: Seq<char>,
    url: Seq<char>,
    nonce: Seq<char>,
    timestamp: Seq<char>,
) -> Seq<char> {
    let sig = oauth_signature(
        consumer_key,
        consumer_secret,
        token,
        token_secret,
        method,
        url,
        nonce,
        timestamp,
    );
    header_text(
        pct_encoded(consumer_key),
        pct_encoded(nonce),
        pct_encoded(sig),
        pct_encoded(timestamp),
        pct_encoded(token),
    )
}

/// The parameter set of a request: the six protocol parameters, then each
/// query pair of `url` set over them.
fn request_params(
    consumer_key: &str,
    token: &str,
    url: &str,
    nonce: &str,
    timestamp: &str,
) -> (r: Vec<(String, String)>)
    ensures
        spairs(r@) == merged(oauth_params(consumer_key@, nonce@, timestamp@, token@), url_params(url@)),
{
    let mut ps: Vec<(String, String)> = Vec::new();
    ps.push((String::from_str("oauth_consumer_key"), String::from_str(consumer_key)));
    ps.push((String::from_str("oauth_nonce"), String::from_str(nonce)));
    ps.push((String::from_str("oauth_signature_method"), String::from_str("HMAC-SHA1")));
    ps.push((String::from_str("oauth_timestamp"), String::from_str(timestamp)));
    ps.push((String::from_str("oauth_token"), String::from_str(token)));
    ps.push((String::from_str("oauth_version"), String::from_str("1.0")));
    let ghost base = oauth_params(consumer_key@, nonce@, timestamp@, token@);
    assert(spairs(ps@) =~= base);
    let (_, query) = split_url(url);
    let ghost qs = pairs_view(query@);
    let mut i: usize = 0;
    while i < query.len()
        invariant
            i <= query@.len(),
            qs == pairs_view(query@),
            qs == url_params(url@),
            spairs(ps@) == merged(base, qs.take(i as int)),
        decreases query@.len() - i,
    {
        let k = String::from_str(query[i].0);
        let v = query[i].1.clone();
        assert(qs[i as int] == (k@, v@));
        assert(qs.take(i + 1).drop_last() =~= qs.take(i as int));
        upsert_param(&mut ps, k, v);
        i += 1;
    }
    assert(qs.take(query@.len() as int) =~= qs);
    ps
}

/// The OAuth 1.0a `Authorization` header of a request, with the nonce and the
/// timestamp (Unix seconds) given.
pub fn oauth_header_with(
    consumer_key: &str,
    consumer_secret: &str,
    token: &str,
    token_secret: &str,
    method: &str,
    url: &str,
    nonce: &str,
    timestamp: u64,
) -> (r: String)
    ensures
        r@ == oauth_header(
            consumer_key@,
            consumer_secret@,
            token@,
            token_secret@,
            method@,
            url@,
            nonce@,
            decimal(timestamp as nat),
        ),
        ({
            let sig = oauth_signature(
                consumer_key@,
                consumer_secret@,
                token@,
                token_secret@,
                method@,
                url@,
                nonce@,
                decimal(timestamp as nat),
            );
            sig.len() == 28 && forall|i: int| 0 <= i < sig.len() ==> is_base64_char(#[trigger] sig[i])
        }),
{
    let ts = decimal_string(timestamp);
    let ps = request_params(consumer_key, token, url, nonce, ts.as_str());
    let param_str = normalized_params(&ps);
    let (base_url, _) = split_url(url);

    let mut base = to_upper(method);
    base.append("&");
    base.append(percent_encode(base_url.as_str()).as_str());
    base.append("&");
    base.append(percent_encode(param_str.as_str()).as_str());

    let mut key = percent_encode(consumer_secret);
    key.append("&");
    key.append(percent_encode(token_secret).as_str());

    let mac = hmac_sha1(key.as_str(), base.as_str());
    let sig = base64_encode(mac.as_slice());

    let mut h = String::from_str("OAuth oauth_consumer_key=\"");
    h.append(percent_encode(consumer_key).as_str());
    h.append("\", oauth_nonce=\"");
    h.append(percent_encode(nonce).as_str());
    h.append("\", oauth_signature=\"");
    h.append(percent_encode(sig.as_str()).as_str());
    h.append("\", oauth_signature_method=\"HMAC-SHA1\", oauth_timestamp=\"");
    h.append(percent_encode(ts.as_str()).as_str());
    h.append("\", oauth_token=\"");
    h.append(percent_encode(token).as_str());
    h.append("\", oauth_version=\"1.0\"");
    h
}

/// A fresh nonce: sixteen random bytes in lower-case hex.
pub fn generate_nonce() -> (r: String)
    ensures
        exists|b: Seq<u8>| b.len() == 16 && r@ == hex_of(b),
{
    let bytes = random_bytes16();
    let r = hex_encode(bytes.as_slice());
    assert(bytes@.len() == 16 && r@ == hex_of(bytes@));
    r
}

/// The OAuth 1.0a `Authorization` header of a request, signed now with a
/// fresh nonce.
pub fn build_oauth_header(
    consumer_key: &str,
    consumer_secret: &str,
    token: &str,
    token_secret: &str,
    method: &str,
    url: &str,
) -> (r: String)
    ensures
        exists|b: Seq<u8>, t: u64|
            b.len() == 16 && r@ == oauth_header(
                consumer_key@,
                consumer_secret@,
                token@,
                token_secret@,
                method@,
                url@,
                hex_of(b),
                decimal(t as nat),
            ),
{
    let timestamp = unix_time_secs();
    let nonce = generate_nonce();
    let r = oauth_header_with(
        consumer_key,
        consumer_secret,
        token,
        token_secret,
        method,
        url,
        nonce.as_str(),
        timestamp,
    );
    let ghost b = choose|b: Seq<u8>| b.len() == 16 && nonce@ == hex_of(b);
    assert(b.len() == 16 && r@ == oauth_header(
        consumer_key@,
        consumer_secret@,
        token@,
        token_secret@,
        method@,
        url@,
        hex_of(b),
        decimal(timestamp as nat),
    ));
    r
}

/// Credentials of a client.
#[derive(Clone, Debug)]
pub enum Auth {
    /// A personal access token, sent as is.
    PersonalToken(String),
    /// OAuth 1.0a consumer and access credentials.
    OAuth { consumer_key: String, consumer_secret: String, token: String, token_secret: String },
}

impl Auth {
    /// The `Authorization` header value for a request with `method` on `url`.
    pub fn header_value(&self, method: &str, url: &str) -> (r: String)
        ensures
            match self {
                Auth::PersonalToken(t) => r@ == "Discogs token="@ + t@,
                Auth::OAuth { consumer_key, consumer_secret, token, token_secret } => exists|
                    b: Seq<u8>,
                    t: u64,
                |
                    b.len() == 16 && r@ == oauth_header(
                        consumer_key@,
                        consumer_secret@,
                        token@,
                        token_secret@,
                        method@,
                        url@,
                        hex_of(b),
                        decimal(t as nat),
                    ),
            },
    {
        match self {
            Auth::PersonalToken(t) => {
                let mut h = String::from_str("Discogs token=");
                h.append(t.as_str());
                h
            },
            Auth::OAuth { consumer_key, consumer_secret, token, token_secret } => build_oauth_header(
                consumer_key.as_str(),
                consumer_secret.as_str(),
                token.as_str(),
                token_secret.as_str(),
                method,
                url,
            ),
        }
    }
}

} // verus!
