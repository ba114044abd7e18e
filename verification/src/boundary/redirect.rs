//! Sending clients from HTTP to HTTPS, and answering the challenge by which a
//! certificate is obtained.
use super::types::text_in;
use vstd::prelude::*;
use vstd::string::*;

verus! {

/// The URI that is built of a scheme, an authority, and a path with its query; none
/// if one of them is not valid.
pub uninterp spec fn built_uri(
    scheme: Seq<char>,
    authority: Seq<char>,
    path_and_query: Seq<char>,
) -> Option<Seq<char>>;

/// Whether a path with its query is kept as it is in an URI: it has a path, it has no
/// fragment, and it is short enough.
pub open spec fn is_kept(path_and_query: Seq<char>) -> bool {
    &&& 0 < path_and_query.len() < 65535
    &&& path_and_query[0] != '?'
    &&& !path_and_query.contains('#')
}

/// The start of an URI with this scheme and authority.
pub open spec fn uri_start(scheme: Seq<char>, authority: Seq<char>) -> Seq<char> {
    scheme + "://"@ + authority
}

/// Whether `text` starts with the scheme and the authority, and goes on with the path
/// and the query, where those are kept.
pub open spec fn carries(
    text: Seq<char>,
    scheme: Seq<char>,
    authority: Seq<char>,
    path_and_query: Seq<char>,
) -> bool {
    let start = uri_start(scheme, authority);
    &&& start.is_prefix_of(text)
    &&& is_kept(path_and_query) ==> text == start + path_and_query
}

/// Builds an URI with the builder of `http::Uri` (`scheme`, `authority`,
/// `path_and_query`, `build`) and writes it out. Claimed of it: the outcome depends on
/// the three parts alone; it starts with the scheme and the authority as they were
/// given; and a path with its query that has no fragment comes after them unchanged.
#[verifier::external_body]
fn build_uri(scheme: &str, authority: &str, path_and_query: &str) -> (r: Option<String>)
    ensures
        text_in(r) == built_uri(scheme@, authority@, path_and_query@),
        r matches Some(text) ==> carries(text@, scheme@, authority@, path_and_query@),
{
    let builder = http::Uri::builder().scheme(scheme).authority(authority);
    match builder.path_and_query(path_and_query).build() {
        Ok(uri) => Some(uri.to_string()),
        Err(_) => None,
    }
}

/// The path to redirect to: `/` where the request has none.
pub open spec fn redirect_path(path_and_query: Option<String>) -> Seq<char> {
    match path_and_query {
        Some(pq) => pq@,
        None => "/"@,
    }
}

/// The path to redirect to.
fn path_or_root(path_and_query: &Option<String>) -> (r: &str)
    ensures
        r@ == redirect_path(*path_and_query),
{
    match path_and_query {
        Some(pq) => pq.as_str(),
        None => "/",
    }
}

/// The URI over HTTPS with the same host, path and query. The host and the path have to
/// make up an URI.
pub fn redirect_to_https(host: &str, path_and_query: &Option<String>) -> (r: String)
    requires
        built_uri("https"@, host@, redirect_path(*path_and_query)) is Some,
    ensures
        built_uri("https"@, host@, redirect_path(*path_and_query)) == Some(r@),
        carries(r@, "https"@, host@, redirect_path(*path_and_query)),
{
    build_uri("https", host, path_or_root(path_and_query)).unwrap()
}

/// The URI over HTTPS with the same host, path and query, or none if they do not make
/// up an URI.
pub fn checked_redirect_to_https(host: &str, path_and_query: &Option<String>) -> (r: Option<String>)
    ensures
        text_in(r) == built_uri("https"@, host@, redirect_path(*path_and_query)),
        r matches Some(uri) ==> carries(uri@, "https"@, host@, redirect_path(*path_and_query)),
{
    match build_uri("https", host, path_or_root(path_and_query)) {
        Some(_) => Some(redirect_to_https(host, path_and_query)),
        None => None,
    }
}

/// The answer to a challenge: the token, or nothing where there is none.
pub fn acme_challenge(token: &Option<String>) -> (r: String)
    ensures
        match *token {
            Some(text) => r@ == text@,
            None => r@ == Seq::<char>::empty(),
        },
{
    match token {
        Some(text) => text.clone(),
        None => {
            proof {
                reveal_strlit("");
            }
            "".to_owned()
        },
    }
}

} // verus!
