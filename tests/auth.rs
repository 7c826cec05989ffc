use base64::Engine;
use discogger::auth::{build_oauth_header, generate_nonce, oauth_header_with, Auth};
use discogger::encoding::{decimal_string, hex_encode, percent_encode};
use discogger::params::{normalized_params, upsert_param};
use discogger::url::split_url;
use hmac::Mac;

#[test]
fn test_percent_encode() {
    assert_eq!(percent_encode("hello world"), "hello%20world");
    assert_eq!(percent_encode("foo+bar"), "foo%2Bbar");
    assert_eq!(percent_encode("test~ok"), "test~ok");
}

#[test]
fn test_split_url() {
    let (base, params) = split_url("https://api.discogs.com/artists/1?page=2&per_page=50");
    assert_eq!(base, "https://api.discogs.com/artists/1");
    assert_eq!(params.len(), 2);
    assert_eq!(params[0], ("page", "2".to_string()));
    assert_eq!(params[1], ("per_page", "50".to_string()));
}

#[test]
fn test_split_url_no_query() {
    let (base, params) = split_url("https://api.discogs.com/artists/1");
    assert_eq!(base, "https://api.discogs.com/artists/1");
    assert!(params.is_empty());
}

#[test]
fn test_oauth_signature() {
    let header = build_oauth_header(
        "consumer_key",
        "consumer_secret",
        "token",
        "token_secret",
        "GET",
        "https://api.discogs.com/artists/1",
    );
    assert!(header.starts_with("OAuth "));
    assert!(header.contains("oauth_consumer_key=\"consumer_key\""));
    assert!(header.contains("oauth_signature_method=\"HMAC-SHA1\""));
    assert!(header.contains("oauth_token=\"token\""));
    assert!(header.contains("oauth_version=\"1.0\""));
    assert!(header.contains("oauth_signature="));
    assert!(header.contains("oauth_nonce="));
    assert!(header.contains("oauth_timestamp="));
}

#[test]
fn percent_encode_keeps_unreserved() {
    assert_eq!(percent_encode("abc-._~"), "abc-._~");
    assert_eq!(percent_encode("AZaz09"), "AZaz09");
    assert_eq!(percent_encode(""), "");
}

#[test]
fn percent_encode_reserved_and_multibyte() {
    assert_eq!(percent_encode(" "), "%20");
    assert_eq!(percent_encode("+"), "%2B");
    assert_eq!(percent_encode("a/b?c=d&e"), "a%2Fb%3Fc%3Dd%26e");
    assert_eq!(percent_encode("%"), "%25");
    assert_eq!(percent_encode("\u{e9}"), "%C3%A9");
    assert_eq!(percent_encode("\u{20ac}"), "%E2%82%AC");
    assert_eq!(percent_encode("\u{1f600}"), "%F0%9F%98%80");
}

#[test]
fn split_url_example_pairs() {
    let (base, params) = split_url("https://x/y?a=1&b=2");
    assert_eq!(base, "https://x/y");
    assert_eq!(params, vec![("a", "1".to_string()), ("b", "2".to_string())]);
}

#[test]
fn split_url_edge_pairs() {
    let (base, params) = split_url("https://x/y?flag&k=v=w&&");
    assert_eq!(base, "https://x/y");
    assert_eq!(
        params,
        vec![
            ("flag", String::new()),
            ("k", "v=w".to_string()),
            ("", String::new()),
            ("", String::new()),
        ]
    );
    let (base, params) = split_url("https://x?");
    assert_eq!(base, "https://x");
    assert_eq!(params, vec![("", String::new())]);
    let (base, params) = split_url("https://x?a=%20?b");
    assert_eq!(base, "https://x");
    assert_eq!(params, vec![("a", "%20?b".to_string())]);
}

#[test]
fn hex_and_decimal_renderings() {
    assert_eq!(hex_encode(&[0x00, 0x0f, 0xa0, 0xff]), "000fa0ff");
    assert_eq!(hex_encode(&[]), "");
    assert_eq!(decimal_string(0), "0");
    assert_eq!(decimal_string(1700000000), "1700000000");
    assert_eq!(decimal_string(u64::MAX), "18446744073709551615");
}

#[test]
fn nonce_is_32_lower_hex_digits() {
    let n = generate_nonce();
    assert_eq!(n.len(), 32);
    assert!(n.chars().all(|c| c.is_ascii_digit() || ('a'..='f').contains(&c)));
}

fn field_value<'a>(header: &'a str, name: &str) -> &'a str {
    let pat = format!("{name}=\"");
    let start = header.find(&pat).unwrap() + pat.len();
    let end = start + header[start..].find('"').unwrap();
    &header[start..end]
}

#[test]
fn nonces_differ_between_calls() {
    let a = build_oauth_header("ck", "cs", "t", "ts", "GET", "https://x/y");
    let b = build_oauth_header("ck", "cs", "t", "ts", "GET", "https://x/y");
    assert_ne!(field_value(&a, "oauth_nonce"), field_value(&b, "oauth_nonce"));
}

#[test]
fn signed_header_has_each_field_once() {
    let h = build_oauth_header("oauth_token", "s", "oauth_nonce", "t", "get", "https://x/y?oauth_version=2");
    assert!(h.starts_with("OAuth "));
    for name in [
        "oauth_consumer_key=\"",
        "oauth_nonce=\"",
        "oauth_signature=\"",
        "oauth_signature_method=\"HMAC-SHA1\"",
        "oauth_timestamp=\"",
        "oauth_token=\"",
        "oauth_version=\"1.0\"",
    ] {
        assert_eq!(h.matches(name).count(), 1, "{name}");
    }
    let ts = field_value(&h, "oauth_timestamp");
    assert!(ts.parse::<u64>().unwrap() > 1_600_000_000);
}

fn percent_decode(s: &str) -> Vec<u8> {
    let b = s.as_bytes();
    let mut out = Vec::new();
    let mut i = 0;
    while i < b.len() {
        if b[i] == b'%' {
            out.push(u8::from_str_radix(&s[i + 1..i + 3], 16).unwrap());
            i += 3;
        } else {
            out.push(b[i]);
            i += 1;
        }
    }
    out
}

fn reference_signature(key: &str, base: &str) -> String {
    let mut mac = hmac::Hmac::<sha1::Sha1>::new_from_slice(key.as_bytes()).unwrap();
    mac.update(base.as_bytes());
    base64::engine::general_purpose::STANDARD.encode(mac.finalize().into_bytes())
}

#[test]
fn fixed_nonce_and_timestamp_give_exact_header() {
    let args = (
        "consumer_key",
        "consumer_secret",
        "token",
        "token_secret",
        "GET",
        "https://api.example.com/artists/1",
    );
    let h = oauth_header_with(args.0, args.1, args.2, args.3, args.4, args.5, "abc123", 1700000000);
    let again = oauth_header_with(args.0, args.1, args.2, args.3, args.4, args.5, "abc123", 1700000000);
    assert_eq!(h, again);
    assert!(h.starts_with("OAuth "));
    assert!(h.contains("oauth_consumer_key=\"consumer_key\""));
    assert!(h.contains("oauth_token=\"token\""));

    let base = "GET&https%3A%2F%2Fapi.example.com%2Fartists%2F1&oauth_consumer_key%3Dconsumer_key\
%26oauth_nonce%3Dabc123%26oauth_signature_method%3DHMAC-SHA1%26oauth_timestamp%3D1700000000\
%26oauth_token%3Dtoken%26oauth_version%3D1.0";
    let sig = reference_signature("consumer_secret&token_secret", base);
    assert_eq!(sig.len(), 28);
    let expected = format!(
        "OAuth oauth_consumer_key=\"consumer_key\", oauth_nonce=\"abc123\", oauth_signature=\"{}\", \
oauth_signature_method=\"HMAC-SHA1\", oauth_timestamp=\"1700000000\", oauth_token=\"token\", \
oauth_version=\"1.0\"",
        percent_encode(&sig)
    );
    assert_eq!(h, expected);

    let decoded = percent_decode(field_value(&h, "oauth_signature"));
    let raw = base64::engine::general_purpose::STANDARD.decode(&decoded).unwrap();
    assert_eq!(raw.len(), 20);
}

#[test]
fn method_is_upper_cased_and_query_is_signed() {
    let a = oauth_header_with("k", "s", "t", "u", "get", "https://x/y?b=2&a=1", "n", 5);
    let b = oauth_header_with("k", "s", "t", "u", "GET", "https://x/y?b=2&a=1", "n", 5);
    assert_eq!(a, b);
    let base = "GET&https%3A%2F%2Fx%2Fy&a%3D1%26b%3D2%26oauth_consumer_key%3Dk%26oauth_nonce%3Dn\
%26oauth_signature_method%3DHMAC-SHA1%26oauth_timestamp%3D5%26oauth_token%3Dt%26oauth_version%3D1.0";
    let sig = reference_signature("s&u", base);
    assert_eq!(percent_decode(field_value(&a, "oauth_signature")), sig.as_bytes());
    let c = oauth_header_with("k", "s", "t", "u", "GET", "https://x/y?a=1&b=3", "n", 5);
    assert_ne!(field_value(&a, "oauth_signature"), field_value(&c, "oauth_signature"));
}

#[test]
fn query_value_overrides_protocol_parameter() {
    let mut ps = vec![
        ("oauth_token".to_string(), "t".to_string()),
        ("oauth_version".to_string(), "1.0".to_string()),
    ];
    upsert_param(&mut ps, "oauth_token".to_string(), "q".to_string());
    upsert_param(&mut ps, "z".to_string(), "1".to_string());
    assert_eq!(
        ps,
        vec![
            ("oauth_token".to_string(), "q".to_string()),
            ("oauth_version".to_string(), "1.0".to_string()),
            ("z".to_string(), "1".to_string()),
        ]
    );
}

#[test]
fn parameters_sorted_by_encoded_name() {
    let ps = vec![
        ("b".to_string(), "x y".to_string()),
        ("a~".to_string(), "1".to_string()),
        ("a b".to_string(), "2".to_string()),
        ("A".to_string(), "3".to_string()),
        ("a".to_string(), "+".to_string()),
    ];
    assert_eq!(normalized_params(&ps), "A=3&a=%2B&a%20b=2&a~=1&b=x%20y");
}

#[test]
fn personal_token_header() {
    let auth = Auth::PersonalToken("abc".to_string());
    assert_eq!(auth.header_value("GET", "https://x"), "Discogs token=abc");
}

#[test]
fn oauth_credentials_header() {
    let auth = Auth::OAuth {
        consumer_key: "ck".to_string(),
        consumer_secret: "cs".to_string(),
        token: "tk".to_string(),
        token_secret: "ts".to_string(),
    };
    let h = auth.header_value("GET", "https://x/y?page=1");
    assert!(h.starts_with("OAuth oauth_consumer_key=\"ck\", oauth_nonce=\""));
    assert!(h.ends_with("oauth_token=\"tk\", oauth_version=\"1.0\""));
}
