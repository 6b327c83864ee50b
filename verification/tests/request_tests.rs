use constel_links::errors::FetchError;
use constel_links::request::ConstelClient;

#[test]
fn remembers_root_uri() {
    let cli = ConstelClient::new("https://constellation.microcosm.blue/".to_string());
    assert_eq!(cli.get_root_uri(), "https://constellation.microcosm.blue/");
}

#[test]
fn builds_first_request_url() {
    let cli = ConstelClient::new("https://example.com/".to_string());
    let url = cli
        .links_url("did:plc:abc", "app.bsky.graph.listblock", ".subject", None)
        .unwrap();
    assert_eq!(
        url,
        "https://example.com/links?target=did%3Aplc%3Aabc&collection=app.bsky.graph.listblock&path=.subject"
    );
}

#[test]
fn continuation_request_carries_cursor() {
    let cli = ConstelClient::new("https://example.com/".to_string());
    let url = cli
        .links_url("did:plc:abc", "app.bsky.graph.listblock", ".subject", Some("c1"))
        .unwrap();
    assert_eq!(
        url,
        "https://example.com/links?target=did%3Aplc%3Aabc&collection=app.bsky.graph.listblock&path=.subject&cursor=c1"
    );
}

#[test]
fn base_without_trailing_slash_works() {
    let cli = ConstelClient::new("https://example.com".to_string());
    let url = cli.links_url("t", "c", "p", None).unwrap();
    assert_eq!(url, "https://example.com/links?target=t&collection=c&path=p");
}

#[test]
fn query_values_are_percent_encoded() {
    let cli = ConstelClient::new("https://example.com/".to_string());
    let url = cli.links_url("a b&c", "c", "p", None).unwrap();
    assert_eq!(url, "https://example.com/links?target=a+b%26c&collection=c&path=p");
}

#[test]
fn invalid_base_is_a_malformed_request() {
    let cli = ConstelClient::new("not a url".to_string());
    let r = cli.links_url("t", "c", "p", None);
    assert!(matches!(r, Err(FetchError::MalformedRequest(_))));
}
