use discogger::models::{cover_image, pick_primary_image, Image, SearchParams, SearchType};

fn make_image(image_type: Option<&str>) -> Image {
    Image {
        image_type: image_type.map(String::from),
        uri: Some("http://example.com/img.jpg".into()),
        uri150: None,
        resource_url: None,
        width: None,
        height: None,
    }
}

#[test]
fn pick_primary_image_prefers_primary() {
    let images = vec![make_image(Some("secondary")), make_image(Some("primary"))];
    let picked = pick_primary_image(&images).unwrap();
    assert_eq!(picked.image_type.as_deref(), Some("primary"));
}

#[test]
fn pick_primary_image_falls_back_to_first() {
    let images = vec![make_image(Some("secondary")), make_image(None)];
    let picked = pick_primary_image(&images).unwrap();
    assert_eq!(picked.image_type.as_deref(), Some("secondary"));
}

#[test]
fn pick_primary_image_empty_returns_none() {
    assert!(pick_primary_image(&[]).is_none());
}

#[test]
fn pick_primary_image_takes_first_primary() {
    let mut a = make_image(Some("primary"));
    a.width = Some(1);
    let mut b = make_image(Some("primary"));
    b.width = Some(2);
    let images = vec![make_image(None), a, b];
    assert_eq!(pick_primary_image(&images).unwrap().width, Some(1));
}

#[test]
fn test_search_params_builder() {
    let params = SearchParams::new()
        .query("aphex twin")
        .search_type(SearchType::Artist)
        .country("UK");
    let pairs = params.as_query_pairs();
    assert!(pairs.iter().any(|(k, v)| *k == "q" && v == "aphex twin"));
    assert!(pairs.iter().any(|(k, v)| *k == "type" && v == "artist"));
    assert!(pairs.iter().any(|(k, v)| *k == "country" && v == "UK"));
}

#[test]
fn search_pairs_in_field_order() {
    let params = SearchParams::new()
        .barcode("123")
        .year("1992")
        .artist("a")
        .title("t")
        .label("l")
        .genre("g")
        .style("s")
        .format("f")
        .catno("c")
        .search_type(SearchType::Release)
        .query("q");
    let pairs = params.as_query_pairs();
    let keys: Vec<&str> = pairs.iter().map(|(k, _)| *k).collect();
    assert_eq!(
        keys,
        vec!["q", "type", "title", "artist", "label", "genre", "style", "year", "format", "catno", "barcode"]
    );
    assert_eq!(pairs[1].1, "release");
    assert!(SearchParams::new().as_query_pairs().is_empty());
}

#[test]
fn search_type_names() {
    assert_eq!(SearchType::Release.to_string(), "release");
    assert_eq!(SearchType::Master.to_string(), "master");
    assert_eq!(SearchType::Artist.to_string(), "artist");
    assert_eq!(SearchType::Label.to_string(), "label");
}

#[test]
fn cover_image_needs_an_address() {
    let mut primary = make_image(Some("primary"));
    primary.uri = None;
    let images = vec![make_image(Some("secondary")), primary];
    assert!(cover_image(&images).is_none());
    let images = vec![make_image(None), make_image(Some("primary"))];
    assert_eq!(cover_image(&images).unwrap().image_type.as_deref(), Some("primary"));
    let images = vec![make_image(None)];
    assert!(cover_image(&images).is_some());
    assert!(cover_image(&[]).is_none());
}
