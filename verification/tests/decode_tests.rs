use constel_links::errors::FetchError;
use constel_links::page::decode_page;

#[test]
fn decodes_full_page() {
    let body = r#"{
        "total": 2,
        "linking_records": [
            {"did": "did:plc:one", "collection": "app.bsky.graph.listblock", "rkey": "k1"},
            {"did": "did:plc:two", "collection": "app.bsky.graph.listblock", "rkey": "k2"}
        ],
        "cursor": "abc"
    }"#;
    let page = decode_page(body).unwrap();
    assert_eq!(page.total, 2);
    assert_eq!(page.records.len(), 2);
    assert_eq!(page.records[0].did, "did:plc:one");
    assert_eq!(page.records[0].collection, "app.bsky.graph.listblock");
    assert_eq!(page.records[0].rkey, "k1");
    assert_eq!(page.records[1].did, "did:plc:two");
    assert_eq!(page.cursor, Some("abc".to_string()));
}

#[test]
fn absent_cursor_decodes_to_none() {
    let body = r#"{"total": 0, "linking_records": []}"#;
    let page = decode_page(body).unwrap();
    assert_eq!(page.total, 0);
    assert!(page.records.is_empty());
    assert_eq!(page.cursor, None);
}

#[test]
fn null_cursor_decodes_to_none() {
    let body = r#"{"total": 0, "linking_records": [], "cursor": null}"#;
    let page = decode_page(body).unwrap();
    assert_eq!(page.cursor, None);
}

#[test]
fn unknown_fields_are_ignored() {
    let body = r#"{"total": 1, "extra": [1, 2], "linking_records": [
        {"did": "x", "collection": "c", "rkey": "r", "note": true}
    ], "also": "ignored"}"#;
    let page = decode_page(body).unwrap();
    assert_eq!(page.records[0].did, "x");
}

#[test]
fn missing_did_is_refused() {
    let body = r#"{"total": 1, "linking_records": [
        {"collection": "c", "rkey": "r"}
    ]}"#;
    assert!(matches!(decode_page(body), Err(FetchError::Decode(_))));
}

#[test]
fn missing_collection_is_refused() {
    let body = r#"{"total": 1, "linking_records": [
        {"did": "x", "rkey": "r"}
    ]}"#;
    assert!(matches!(decode_page(body), Err(FetchError::Decode(_))));
}

#[test]
fn missing_rkey_is_refused() {
    let body = r#"{"total": 1, "linking_records": [
        {"did": "x", "collection": "c"}
    ]}"#;
    assert!(matches!(decode_page(body), Err(FetchError::Decode(_))));
}

#[test]
fn one_bad_record_refuses_the_page() {
    let body = r#"{"total": 3, "linking_records": [
        {"did": "x", "collection": "c", "rkey": "r"},
        {"did": "y", "collection": "c"},
        {"did": "z", "collection": "c", "rkey": "r"}
    ]}"#;
    assert!(matches!(decode_page(body), Err(FetchError::Decode(_))));
}

#[test]
fn non_string_did_is_refused() {
    let body = r#"{"total": 1, "linking_records": [
        {"did": 7, "collection": "c", "rkey": "r"}
    ]}"#;
    assert!(matches!(decode_page(body), Err(FetchError::Decode(_))));
}

#[test]
fn record_that_is_not_an_object_is_refused() {
    let body = r#"{"total": 1, "linking_records": ["x"]}"#;
    assert!(matches!(decode_page(body), Err(FetchError::Decode(_))));
}

#[test]
fn missing_total_is_refused() {
    let body = r#"{"linking_records": []}"#;
    assert!(matches!(decode_page(body), Err(FetchError::Decode(_))));
}

#[test]
fn fractional_total_is_refused() {
    let body = r#"{"total": 1.5, "linking_records": []}"#;
    assert!(matches!(decode_page(body), Err(FetchError::Decode(_))));
}

#[test]
fn negative_total_is_refused() {
    let body = r#"{"total": -1, "linking_records": []}"#;
    assert!(matches!(decode_page(body), Err(FetchError::Decode(_))));
}

#[test]
fn missing_linking_records_is_refused() {
    let body = r#"{"total": 0}"#;
    assert!(matches!(decode_page(body), Err(FetchError::Decode(_))));
}

#[test]
fn linking_records_of_wrong_type_is_refused() {
    let body = r#"{"total": 0, "linking_records": {"did": "x"}}"#;
    assert!(matches!(decode_page(body), Err(FetchError::Decode(_))));
}

#[test]
fn cursor_of_wrong_type_is_refused() {
    let body = r#"{"total": 0, "linking_records": [], "cursor": 12}"#;
    assert!(matches!(decode_page(body), Err(FetchError::Decode(_))));
}

#[test]
fn body_that_is_not_json_is_refused() {
    assert!(matches!(decode_page("not json"), Err(FetchError::Decode(_))));
}

#[test]
fn body_that_is_not_an_object_is_refused() {
    assert!(matches!(decode_page("[1, 2]"), Err(FetchError::Decode(_))));
}
