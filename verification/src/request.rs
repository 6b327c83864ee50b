use vstd::prelude::*;

use crate::errors::FetchError;

verus! {

/// What the `url` crate makes of a base URL, a list of query pairs to
/// append, and a path to set: the serialized URL, or `None` where the base
/// does not parse as an absolute URL. The result depends on the three
/// arguments alone.
pub uninterp spec fn url_with_params(
    base: Seq<char>,
    pairs: Seq<(Seq<char>, Seq<char>)>,
    path: Seq<char>,
) -> Option<Seq<char>>;

/// The query pairs as plain character sequences.
pub open spec fn pairs_view(pairs: Seq<(String, String)>) -> Seq<(Seq<char>, Seq<char>)> {
    pairs.map_values(|p: (String, String)| (p.0@, p.1@))
}

/// Relies on `url::Url::parse_with_params`, `url::Url::set_path` and
/// `String::from(Url)`: parse the base as an absolute URL, append the
/// percent-encoded query pairs, replace the path, and serialize. All three
/// are functions of the given strings alone; a base that is not an
/// absolute URL is refused with a parse error.
#[verifier::external_body]
fn build_url(base: &str, pairs: &Vec<(String, String)>, path: &str) -> (r: Result<String, String>)
    ensures
        (match r {
            Ok(u) => url_with_params(base@, pairs_view(pairs@), path@) == Some(u@),
            Err(_) => url_with_params(base@, pairs_view(pairs@), path@) is None,
        }),
{
    match url::Url::parse_with_params(base, pairs.iter().map(|p| (p.0.as_str(), p.1.as_str()))) {
        Ok(mut u) => {
            u.set_path(path);
            Ok(String::from(u))
        },
        Err(e) => Err(e.to_string()),
    }
}

/// A cursor option as a plain character sequence.
pub open spec fn opt_str_view(c: Option<&str>) -> Option<Seq<char>> {
    match c {
        Some(s) => Some(s@),
        None => None,
    }
}

/// The query pairs of one page request: `target`, `collection` and `path`
/// always, and `cursor` exactly when the request continues an earlier page.
pub open spec fn spec_query_pairs(
    target: Seq<char>,
    collection: Seq<char>,
    path: Seq<char>,
    cursor: Option<Seq<char>>,
) -> Seq<(Seq<char>, Seq<char>)> {
    let required = seq![("target"@, target), ("collection"@, collection), ("path"@, path)];
    match cursor {
        Some(c) => required.push(("cursor"@, c)),
        None => required,
    }
}

/// Build the query pairs of one page request.
pub fn query_pairs(target: &str, collection: &str, path: &str, cursor: Option<&str>) -> (r: Vec<
    (String, String),
>)
    ensures
        pairs_view(r@) == spec_query_pairs(target@, collection@, path@, opt_str_view(cursor)),
{
    let mut v: Vec<(String, String)> = Vec::new();
    v.push(("target".to_owned(), target.to_owned()));
    v.push(("collection".to_owned(), collection.to_owned()));
    v.push(("path".to_owned(), path.to_owned()));
    match cursor {
        Some(c) => {
            v.push(("cursor".to_owned(), c.to_owned()));
        },
        None => {},
    }
    proof {
        assert(pairs_view(v@) =~= spec_query_pairs(
            target@,
            collection@,
            path@,
            opt_str_view(cursor),
        ));
    }
    v
}

/// The URL of one page request against a base endpoint: the fixed
/// link-lookup route with the request's query pairs appended.
pub open spec fn spec_links_url(
    base: Seq<char>,
    target: Seq<char>,
    collection: Seq<char>,
    path: Seq<char>,
    cursor: Option<Seq<char>>,
) -> Option<Seq<char>> {
    url_with_params(base, spec_query_pairs(target, collection, path, cursor), "/links"@)
}

/// A client of the backlink index service: its one piece of configuration
/// is the root URL of the service.
#[derive(Debug)]
pub struct ConstelClient {
    pub root_uri: String,
}

impl ConstelClient {
    /// A client against the given base endpoint.
    pub fn new(root_uri: String) -> (r: ConstelClient)
        ensures
            r.root_uri@ == root_uri@,
    {
        ConstelClient { root_uri }
    }

    /// The root URL the client was configured with.
    pub fn get_root_uri(&self) -> (r: &str)
        ensures
            r@ == self.root_uri@,
    {
        self.root_uri.as_str()
    }

    /// The URL of one page request: the link-lookup route on the configured
    /// base, asking for records of `collection` whose field `path` points
    /// at `target`, continuing from `cursor` when one is carried. A base
    /// that does not combine into a valid URL is refused as a malformed
    /// request.
    pub fn links_url(
        &self,
        target: &str,
        collection: &str,
        path: &str,
        cursor: Option<&str>,
    ) -> (r: Result<String, FetchError>)
        requires
            target@.len() > 0,
            collection@.len() > 0,
            path@.len() > 0,
        ensures
            (match r {
                Ok(u) => spec_links_url(
                    self.root_uri@,
                    target@,
                    collection@,
                    path@,
                    opt_str_view(cursor),
                ) == Some(u@),
                Err(e) => e is MalformedRequest && spec_links_url(
                    self.root_uri@,
                    target@,
                    collection@,
                    path@,
                    opt_str_view(cursor),
                ) is None,
            }),
    {
        let pairs = query_pairs(target, collection, path, cursor);
        match build_url(self.root_uri.as_str(), &pairs, "/links") {
            Ok(u) => Ok(u),
            Err(detail) => Err(FetchError::MalformedRequest(detail)),
        }
    }
}

} // verus!
