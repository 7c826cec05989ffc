use discogger::auth::Auth;
use discogger::client::{classify_status, parse_count, resource_path, signing_url, ClientBuilder, DiscogsError, StatusClass};
use discogger::models::SearchParams;
use discogger::pagination::PaginationParams;

#[test]
fn client_builder_requires_user_agent() {
    assert!(matches!(ClientBuilder::new().build(), Err(DiscogsError::Configuration(_))));
}

#[test]
fn client_builder_rejects_empty_user_agent() {
    assert!(matches!(
        ClientBuilder::new().user_agent("").build(),
        Err(DiscogsError::Configuration(_))
    ));
}

#[test]
fn builder_succeeds_with_user_agent() {
    let client = ClientBuilder::new().user_agent("TestApp/1.0").build();
    assert!(client.is_ok());
}

#[test]
fn blocking_builder_requires_user_agent() {
    assert!(matches!(ClientBuilder::new().build(), Err(DiscogsError::Configuration(_))));
}

#[test]
fn blocking_builder_rejects_empty_user_agent() {
    assert!(matches!(
        ClientBuilder::new().user_agent("").build(),
        Err(DiscogsError::Configuration(_))
    ));
}

#[test]
fn rate_limit_depends_on_credentials() {
    let anon = ClientBuilder::new().user_agent("a").build().unwrap();
    assert_eq!(anon.max_per_minute, 25);
    assert_eq!(anon.base_url, "https://api.discogs.com");
    let tok = ClientBuilder::new().user_agent("a").personal_token("t").build().unwrap();
    assert_eq!(tok.max_per_minute, 60);
    let oauth = ClientBuilder::new()
        .oauth("ck", "cs", "t", "ts")
        .user_agent("a")
        .base_url("http://localhost:1")
        .build()
        .unwrap();
    assert_eq!(oauth.max_per_minute, 60);
    assert_eq!(oauth.base_url, "http://localhost:1");
    assert!(matches!(oauth.auth, Some(Auth::OAuth { .. })));
}

#[test]
fn search_needs_credentials() {
    let anon = ClientBuilder::new().user_agent("a").build().unwrap();
    let params = SearchParams::new().query("x");
    assert!(matches!(
        anon.search_query(&params, &PaginationParams::default()),
        Err(DiscogsError::AuthRequired)
    ));
    let tok = ClientBuilder::new().user_agent("a").personal_token("t").build().unwrap();
    let q = tok.search_query(&params, &PaginationParams::new(2, 10)).unwrap();
    assert_eq!(
        q,
        vec![("page", "2".to_string()), ("per_page", "10".to_string()), ("q", "x".to_string())]
    );
}

#[test]
fn status_classes() {
    assert_eq!(classify_status(200), StatusClass::Success);
    assert_eq!(classify_status(299), StatusClass::Success);
    assert_eq!(classify_status(429), StatusClass::RateLimited);
    assert_eq!(classify_status(404), StatusClass::Failed);
    assert_eq!(classify_status(300), StatusClass::Failed);
    assert_eq!(classify_status(199), StatusClass::Failed);
}

#[test]
fn header_counts() {
    assert_eq!(parse_count("60"), Some(60));
    assert_eq!(parse_count("+5"), Some(5));
    assert_eq!(parse_count("007"), Some(7));
    assert_eq!(parse_count("4294967295"), Some(u32::MAX));
    assert_eq!(parse_count("4294967296"), None);
    assert_eq!(parse_count("99999999999x"), None);
    assert_eq!(parse_count(""), None);
    assert_eq!(parse_count("+"), None);
    assert_eq!(parse_count("-1"), None);
    assert_eq!(parse_count(" 1"), None);
    assert_eq!(parse_count("12a"), None);
}

#[test]
fn signing_url_appends_query() {
    assert_eq!(signing_url("https://x/y", &vec![]), "https://x/y");
    let q = vec![("page", "1".to_string()), ("q", "a b".to_string())];
    assert_eq!(signing_url("https://x/y", &q), "https://x/y?page=1&q=a b");
}

#[test]
fn resource_paths() {
    assert_eq!(resource_path("artists", 45, ""), "/artists/45");
    assert_eq!(resource_path("masters", 4148, "/versions"), "/masters/4148/versions");
}
