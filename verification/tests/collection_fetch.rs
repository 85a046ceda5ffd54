use bannedcamp::collection::{
    collection_request_body, collection_status_error, convert_collection_item, fan_id_number,
    initial_token, next_page_decision, parse_collection_page, CollectionPage, CollectionState,
    NextPage, RawItem,
};
use bannedcamp::errors::BandcampError;

fn raw(id: u64, title: &str, ty: &str) -> RawItem {
    RawItem {
        sale_item_id: id,
        sale_item_type: "a".to_string(),
        band_name: "Band".to_string(),
        item_title: title.to_string(),
        band_id: 7,
        tralbum_type: ty.to_string(),
        is_preorder: false,
        hidden: None,
        artist_subdomain: None,
        slug: None,
        item_url: None,
    }
}

#[test]
fn two_page_overlap_keeps_each_id_once() {
    // page 1: items A, B; page 2: items B (new version), C
    let page1 = CollectionPage {
        items: vec![raw(1, "A", "a"), raw(2, "B", "a")],
        more_available: true,
        last_token: Some("T2".to_string()),
        redownload_urls: vec![],
    };
    let page2 = CollectionPage {
        items: vec![raw(2, "B page two", "a"), raw(3, "C", "a")],
        more_available: false,
        last_token: None,
        redownload_urls: vec![],
    };
    match next_page_decision(&page1) {
        NextPage::Continue { token } => assert_eq!(token, "T2"),
        NextPage::Done => panic!("page 1 must continue"),
    }
    assert!(matches!(next_page_decision(&page2), NextPage::Done));

    let mut state = CollectionState::new();
    state.apply_page(&page1);
    state.apply_page(&page2);
    let items = state.into_items();
    assert_eq!(items.len(), 3);
    let mut ids: Vec<String> = items.iter().map(|i| i.id.clone()).collect();
    ids.sort();
    assert_eq!(ids, vec!["1".to_string(), "2".to_string(), "3".to_string()]);
    let b = items.iter().find(|i| i.id == "2").unwrap();
    assert_eq!(b.title, "B page two");
}

#[test]
fn convert_uses_redownload_map() {
    let urls = vec![("a5".to_string(), "https://re.example/dl?x=1".to_string())];
    let item = convert_collection_item(&raw(5, "T", "t"), &urls);
    assert_eq!(item.download_url, "https://re.example/dl?x=1");
    assert_eq!(item.id, "5");
    assert_eq!(item.item_type, bannedcamp::formats::ItemType::Track);
}

#[test]
fn convert_synthesizes_fallback_url() {
    let item = convert_collection_item(&raw(42, "T", "p"), &vec![]);
    assert_eq!(
        item.download_url,
        "https://bandcamp.com/download?from=collection&payment_id=42&sitem_id=42"
    );
    assert_eq!(item.item_type, bannedcamp::formats::ItemType::Package);
}

#[test]
fn convert_unknown_type_counts_as_album() {
    let item = convert_collection_item(&raw(1, "X", "z"), &vec![]);
    assert_eq!(item.item_type, bannedcamp::formats::ItemType::Album);
}

#[test]
fn parse_page_from_json_body() {
    let body = "{\"items\":[{\"sale_item_id\":11,\"sale_item_type\":\"a\",\"band_name\":\"B\",\
                 \"item_title\":\"T\",\"item_id\":99,\"band_id\":3,\"is_preorder\":false,\
                 \"hidden\":null,\"token\":\"tok\",\"tralbum_type\":\"a\",\
                 \"url_hints\":{\"subdomain\":\"bsub\",\"slug\":\"tslug\"}}],\
                 \"more_available\":true,\"last_token\":\"1111::a::\",\
                 \"redownload_urls\":{\"a11\":\"https://re.example/a11\"}}";
    let page = parse_collection_page(body).unwrap();
    assert_eq!(page.items.len(), 1);
    assert_eq!(page.items[0].sale_item_id, 11);
    assert_eq!(page.items[0].band_name, "B");
    assert_eq!(page.items[0].artist_subdomain.as_deref(), Some("bsub"));
    assert_eq!(page.items[0].slug.as_deref(), Some("tslug"));
    assert!(page.more_available);
    assert_eq!(page.last_token.as_deref(), Some("1111::a::"));
    assert_eq!(
        page.redownload_urls,
        vec![("a11".to_string(), "https://re.example/a11".to_string())]
    );
    let item = convert_collection_item(&page.items[0], &page.redownload_urls);
    assert_eq!(item.download_url, "https://re.example/a11");
}

#[test]
fn parse_page_rejects_malformed_body() {
    let r = parse_collection_page("this is not json");
    match r {
        Err(BandcampError::ParseError(m)) => {
            assert_eq!(m, "Failed to parse collection response")
        }
        _ => panic!("expected a parse error"),
    }
}

#[test]
fn parse_page_rejects_missing_required_field() {
    // items present but more_available missing
    let r = parse_collection_page("{\"items\":[]}");
    assert!(matches!(r, Err(BandcampError::ParseError(_))));
}

#[test]
fn initial_token_is_one_day_ahead() {
    assert_eq!(initial_token(0), "86400::a::");
    assert_eq!(initial_token(1700000000), "1700086400::a::");
}

#[test]
fn request_body_shape() {
    assert_eq!(
        collection_request_body(77, "123::a::"),
        "{\"fan_id\":77,\"count\":100,\"older_than_token\":\"123::a::\"}"
    );
}

#[test]
fn request_body_escapes_token() {
    assert_eq!(
        collection_request_body(1, "a\"b\\c"),
        "{\"fan_id\":1,\"count\":100,\"older_than_token\":\"a\\\"b\\\\c\"}"
    );
}

#[test]
fn status_errors_map_as_specified() {
    assert_eq!(collection_status_error(401), BandcampError::SessionExpired);
    assert_eq!(collection_status_error(503), BandcampError::ServiceUnavailable);
    assert_eq!(
        collection_status_error(500),
        BandcampError::NetworkError("HTTP 500".to_string())
    );
}

#[test]
fn fan_id_number_reads_digits() {
    assert_eq!(fan_id_number("123"), 123);
    assert_eq!(fan_id_number(""), 0);
    assert_eq!(fan_id_number("12x"), 0);
    assert_eq!(fan_id_number("99999999999999999999999"), 0);
}

#[test]
fn empty_collection_stays_empty() {
    let state = CollectionState::new();
    assert!(state.into_items().is_empty());
}

#[test]
fn duplicate_within_one_page_keeps_last() {
    let page = CollectionPage {
        items: vec![raw(9, "first seen", "a"), raw(9, "last seen", "a")],
        more_available: false,
        last_token: None,
        redownload_urls: vec![],
    };
    let mut state = CollectionState::new();
    state.apply_page(&page);
    let items = state.into_items();
    assert_eq!(items.len(), 1);
    assert_eq!(items[0].title, "last seen");
}
